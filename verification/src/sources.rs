//! Where the text of a dependency's license is looked for: the repository
//! that crates.io, the npm registry, PyPI or a Go module path points to, or
//! a guessed GitHub repository, and the license files of that repository.

use vstd::prelude::*;

use crate::documents::{json_string, json_string_at, path1, path2, path3};
use crate::languages::node::{trim_start_str, trim_start_str_exec};
use crate::licenses::{opt_string, string_views};
use crate::text::{
    contains, contains_str, ends_with, extend, extend_str, from_chars, join, join_exec, replace, replace_exec,
    seqs, slice_of, split, split_exec, starts_with, starts_with_str, to_chars, trim_end_char, trim_end_char_exec,
};

verus! {

/// A copy of some characters.
fn copied(v: &Vec<char>) -> (r: Vec<char>)
    ensures
        r@ == v@,
{
    let r = slice_of(v.as_slice(), 0, v.len());
    assert(r@ =~= v@);
    r
}

/// The crates.io document of a crate.
pub open spec fn crates_io_url(name: Seq<char>) -> Seq<char> {
    "https://crates.io/api/v1/crates/"@ + name
}

/// The crates.io document of a crate (see `crates_io_url`).
pub fn crates_io_crate_url(name: &str) -> (r: String)
    ensures
        r@ == crates_io_url(name@),
{
    let mut v = to_chars("https://crates.io/api/v1/crates/");
    extend_str(&mut v, name);
    from_chars(v.as_slice())
}

/// A repository address worth following: one on GitHub.
pub open spec fn on_github(url: Seq<char>) -> bool {
    contains(url, "github.com"@)
}

/// The GitHub repository a crates.io document names: its
/// `crate`.`repository`, when on GitHub.
pub open spec fn crate_repository(body: Seq<char>) -> Option<Seq<char>> {
    match json_string(body, seq!["crate"@, "repository"@]) {
        Some(r) => if on_github(r) {
            Some(r)
        } else {
            None
        },
        None => None,
    }
}

/// The GitHub repository a crates.io document names (see
/// `crate_repository`).
pub fn crates_io_repository(body: &str) -> (r: Option<String>)
    ensures
        opt_string(r) == crate_repository(body@),
{
    match json_string_at(body, &path2("crate", "repository")) {
        Some(r) => {
            let rc = to_chars(r.as_str());
            if contains_str(rc.as_slice(), "github.com") {
                Some(r)
            } else {
                None
            }
        },
        None => None,
    }
}

/// The npm registry document of a release.
pub open spec fn npm_version_url(name: Seq<char>, version: Seq<char>) -> Seq<char> {
    "https://registry.npmjs.org/"@ + name + "/"@ + version
}

/// The npm registry document of a release (see `npm_version_url`).
pub fn npm_release_url(name: &str, version: &str) -> (r: String)
    ensures
        r@ == npm_version_url(name@, version@),
{
    let mut v = to_chars("https://registry.npmjs.org/");
    extend_str(&mut v, name);
    extend_str(&mut v, "/");
    extend_str(&mut v, version);
    from_chars(v.as_slice())
}

/// `str::trim_end_matches(p)` for a text pattern: `p` removed from the end
/// as often as it occurs there.
pub open spec fn trim_end_str(s: Seq<char>, p: Seq<char>) -> Seq<char>
    decreases s.len(),
{
    if p.len() > 0 && ends_with(s, p) && p.len() <= s.len() {
        trim_end_str(s.subrange(0, s.len() - p.len()), p)
    } else {
        s
    }
}

/// `str::trim_end_matches(p)` on characters.
fn trim_end_str_exec(s: &[char], p: &str) -> (r: Vec<char>)
    ensures
        r@ == trim_end_str(s@, p@),
{
    let pc = to_chars(p);
    let mut k: usize = s.len();
    assert(s@.subrange(0, s@.len() as int) =~= s@);
    while pc.len() > 0 && pc.len() <= k && crate::text::occurs_at_exec(s, pc.as_slice(), k - pc.len())
        invariant
            k <= s@.len(),
            pc@ == p@,
            trim_end_str(s@, p@) == trim_end_str(s@.subrange(0, k as int), p@),
        decreases k,
    {
        let ghost t = s@.subrange(0, k as int);
        assert(t.subrange(t.len() - p@.len(), t.len() as int) =~= s@.subrange(k - p@.len(), k as int));
        assert(t.subrange(0, t.len() - p@.len()) =~= s@.subrange(0, k - p@.len()));
        k = k - pc.len();
    }
    proof {
        let t = s@.subrange(0, k as int);
        if p@.len() > 0 && ends_with(t, p@) && p@.len() <= t.len() {
            assert(t.subrange(t.len() - p@.len(), t.len() as int) =~= s@.subrange(k - p@.len(), k as int));
        }
    }
    slice_of(s, 0, k)
}

/// A repository address from a package document, as a web address: without
/// a leading `git+` or a trailing `.git`, and with `git://` read as
/// `https://`.
pub open spec fn web_address(url: Seq<char>) -> Seq<char> {
    replace(trim_end_str(trim_start_str(url, "git+"@), ".git"@), "git://"@, "https://"@)
}

/// The GitHub repository an npm registry document names: the web address
/// of its `repository`.`url`, when on GitHub.
pub open spec fn npm_repository(body: Seq<char>) -> Option<Seq<char>> {
    match json_string(body, seq!["repository"@, "url"@]) {
        Some(u) => if on_github(web_address(u)) {
            Some(web_address(u))
        } else {
            None
        },
        None => None,
    }
}

/// The GitHub repository an npm registry document names (see
/// `npm_repository`).
pub fn npm_package_repository(body: &str) -> (r: Option<String>)
    ensures
        opt_string(r) == npm_repository(body@),
{
    match json_string_at(body, &path2("repository", "url")) {
        Some(u) => {
            let uc = to_chars(u.as_str());
            let a = trim_start_str_exec(uc.as_slice(), "git+");
            let b = trim_end_str_exec(a.as_slice(), ".git");
            proof {
                reveal_strlit("git://");
            }
            let c = replace_exec(b.as_slice(), "git://", "https://");
            if contains_str(c.as_slice(), "github.com") {
                Some(from_chars(c.as_slice()))
            } else {
                None
            }
        },
        None => None,
    }
}

/// The GitHub repository a PyPI document names: its
/// `info`.`project_urls`.`Homepage`, when on GitHub.
pub open spec fn pypi_repository(body: Seq<char>) -> Option<Seq<char>> {
    match json_string(body, seq!["info"@, "project_urls"@, "Homepage"@]) {
        Some(h) => if on_github(h) {
            Some(h)
        } else {
            None
        },
        None => None,
    }
}

/// The GitHub repository a PyPI document names (see `pypi_repository`).
pub fn pypi_project_repository(body: &str) -> (r: Option<String>)
    ensures
        opt_string(r) == pypi_repository(body@),
{
    match json_string_at(body, &path3("info", "project_urls", "Homepage")) {
        Some(h) => {
            let hc = to_chars(h.as_str());
            if contains_str(hc.as_slice(), "github.com") {
                Some(h)
            } else {
                None
            }
        },
        None => None,
    }
}

/// The GitHub repository of a Go module on GitHub: its first three path
/// segments (all of them when fewer), as a web address.
pub open spec fn go_repository(name: Seq<char>) -> Option<Seq<char>> {
    if starts_with(name, "github.com/"@) {
        let p = split(name, '/');
        Some("https://"@ + join(p.take(if p.len() < 3 { p.len() as int } else { 3 }), "/"@))
    } else {
        None
    }
}

/// The GitHub repository of a Go module (see `go_repository`).
pub fn go_module_repository(name: &str) -> (r: Option<String>)
    ensures
        opt_string(r) == go_repository(name@),
{
    let nc = to_chars(name);
    if !starts_with_str(nc.as_slice(), "github.com/") {
        return None;
    }
    let parts = split_exec(nc.as_slice(), '/');
    let mut first: Vec<Vec<char>> = Vec::new();
    let mut i: usize = 0;
    while i < parts.len() && i < 3
        invariant
            i <= parts@.len(),
            i <= 3,
            seqs(first@) == seqs(parts@).take(i as int),
        decreases 3 - i,
    {
        let piece = copied(&parts[i]);
        let ghost before = seqs(first@);
        first.push(piece);
        assert(seqs(first@) =~= before.push(parts@[i as int]@));
        assert(seqs(parts@).take(i + 1) =~= seqs(parts@).take(i as int).push(parts@[i as int]@));
        i = i + 1;
    }
    assert(i as int == if seqs(parts@).len() < 3 { seqs(parts@).len() as int } else { 3 });
    let joined = join_exec(&first, "/");
    let mut v = to_chars("https://");
    extend(&mut v, joined.as_slice());
    Some(from_chars(v.as_slice()))
}

/// The GitHub repositories guessed for a package name: `name/name`,
/// `name/libname`, `name/name-rs` and `name/name.js`.
pub open spec fn guessed_repositories(name: Seq<char>) -> Seq<Seq<char>> {
    let base = "https://github.com/"@ + name + "/"@;
    seq![base + name, base + "lib"@ + name, base + name + "-rs"@, base + name + ".js"@]
}

/// Appends a text.
fn push_text(v: &mut Vec<String>, t: Vec<char>)
    ensures
        string_views(final(v)@) == string_views(old(v)@).push(t@),
{
    let ghost before = string_views(v@);
    v.push(from_chars(t.as_slice()));
    assert(string_views(v@) =~= before.push(t@));
}

/// The GitHub repositories guessed for a package name (see
/// `guessed_repositories`).
pub fn guessed_github_repositories(name: &str) -> (r: Vec<String>)
    ensures
        string_views(r@) == guessed_repositories(name@),
{
    let mut base = to_chars("https://github.com/");
    extend_str(&mut base, name);
    extend_str(&mut base, "/");
    let mut out: Vec<String> = Vec::new();
    assert(string_views(out@) =~= Seq::<Seq<char>>::empty());
    let mut a = copied(&base);
    extend_str(&mut a, name);
    push_text(&mut out, a);
    let mut b = copied(&base);
    extend_str(&mut b, "lib");
    extend_str(&mut b, name);
    push_text(&mut out, b);
    let mut c = copied(&base);
    extend_str(&mut c, name);
    extend_str(&mut c, "-rs");
    push_text(&mut out, c);
    let mut d = copied(&base);
    extend_str(&mut d, name);
    extend_str(&mut d, ".js");
    push_text(&mut out, d);
    assert(string_views(out@) =~= guessed_repositories(name@));
    out
}

/// The owner and name of a repository address: its last two segments once
/// trailing `/` are removed, when it has two.
pub open spec fn repository_parts(url: Seq<char>) -> Option<(Seq<char>, Seq<char>)> {
    let parts = split(trim_end_char(url, '/'), '/');
    if parts.len() < 2 {
        None
    } else {
        Some((parts[parts.len() - 2], parts[parts.len() - 1]))
    }
}

/// The owner and name of a repository address (see `repository_parts`).
pub fn github_repository_parts(url: &str) -> (r: Option<(String, String)>)
    ensures
        match r {
            Some(p) => repository_parts(url@) == Some((p.0@, p.1@)),
            None => repository_parts(url@) is None,
        },
{
    let uc = to_chars(url);
    let t = trim_end_char_exec(uc.as_slice(), '/');
    let parts = split_exec(t.as_slice(), '/');
    assert(seqs(parts@).len() == parts@.len());
    let n = parts.len();
    if n < 2 {
        None
    } else {
        assert(seqs(parts@)[n - 2] == parts@[n - 2]@);
        assert(seqs(parts@)[n - 1] == parts@[n - 1]@);
        Some((from_chars(parts[n - 2].as_slice()), from_chars(parts[n - 1].as_slice())))
    }
}

/// The names a repository's license file is looked for under, in order.
pub open spec fn license_file_names() -> Seq<Seq<char>> {
    seq![
        "LICENSE"@,
        "LICENSE.txt"@,
        "LICENSE.md"@,
        "license"@,
        "license.txt"@,
        "license.md"@,
        "COPYING"@,
        "COPYING.txt"@,
        "COPYRIGHT"@,
        "COPYRIGHT.txt"@,
    ]
}

/// The GitHub contents document of each candidate license file of a
/// repository, in the order of `license_file_names`.
pub open spec fn contents_urls(owner: Seq<char>, repo: Seq<char>) -> Seq<Seq<char>> {
    license_file_names().map_values(
        |f: Seq<char>| "https://api.github.com/repos/"@ + owner + "/"@ + repo + "/contents/"@ + f,
    )
}

/// The GitHub contents document of each candidate license file of a
/// repository (see `contents_urls`).
pub fn github_contents_urls(owner: &str, repo: &str) -> (r: Vec<String>)
    ensures
        string_views(r@) == contents_urls(owner@, repo@),
{
    let mut base = to_chars("https://api.github.com/repos/");
    extend_str(&mut base, owner);
    extend_str(&mut base, "/");
    extend_str(&mut base, repo);
    extend_str(&mut base, "/contents/");
    let names = vec![
        "LICENSE",
        "LICENSE.txt",
        "LICENSE.md",
        "license",
        "license.txt",
        "license.md",
        "COPYING",
        "COPYING.txt",
        "COPYRIGHT",
        "COPYRIGHT.txt",
    ];
    let ghost nv = names@.map_values(|n: &str| n@);
    assert(nv =~= license_file_names());
    let mut out: Vec<String> = Vec::new();
    let mut i: usize = 0;
    while i < names.len()
        invariant
            i <= names@.len(),
            nv == names@.map_values(|n: &str| n@),
            base@ == "https://api.github.com/repos/"@ + owner@ + "/"@ + repo@ + "/contents/"@,
            string_views(out@) == nv.take(i as int).map_values(|f: Seq<char>| base@ + f),
        decreases names@.len() - i,
    {
        let mut u = copied(&base);
        extend_str(&mut u, names[i]);
        push_text(&mut out, u);
        assert(nv.take(i + 1).map_values(|f: Seq<char>| base@ + f) =~= nv.take(i as int).map_values(
            |f: Seq<char>| base@ + f,
        ).push(base@ + names@[i as int]@));
        i = i + 1;
    }
    assert(nv.take(nv.len() as int) =~= nv);
    assert(string_views(out@) =~= contents_urls(owner@, repo@));
    out
}

/// The address a GitHub contents document gives for downloading the file.
pub open spec fn download_address(body: Seq<char>) -> Option<Seq<char>> {
    json_string(body, seq!["download_url"@])
}

/// The address a GitHub contents document gives for downloading the file
/// (see `download_address`).
pub fn github_download_url(body: &str) -> (r: Option<String>)
    ensures
        opt_string(r) == download_address(body@),
{
    json_string_at(body, &path1("download_url"))
}

} // verus!
