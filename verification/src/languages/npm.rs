//! Node.js package listings: `package.json` dependency tables, the lines of
//! package-manager output, the entries of lockfiles and the licenses that
//! package manifests and the npm registry declare.

use vstd::prelude::*;

use crate::documents::{json_first_item_string, json_first_item_string_at, json_string, json_string_at, path1, path2};
use crate::documents::{json_has, json_string_entries, json_string_items, json_string_items_at, json_valid, opt_strings};
use crate::documents::{present_strings, present_strings_exec};
use crate::documents::{entry_strings, json_field_entries, json_field_entries_at, json_item_strings, json_item_strings_at};
use crate::documents::{entry_field_views, json_entry_fields, json_entry_fields_at};
use crate::documents::{json_has_at, json_is_valid, json_item_texts, json_item_texts_at, json_string_entries_at, path0};
use crate::licenses::string_views;
use crate::config::strs;
use crate::licenses::opt_string;
use crate::languages::node::{clean_version, clean_version_string};
use crate::languages::node::{dependency_line, entry_views, map_of, distinct_names, parse_dependency_line, DependencyMap};
use crate::text::{
    contains, contains_str, ends_with, ends_with_str, find, find_exec, from_chars, lines, lines_exec, rfind,
    rfind_exec, seqs, slice_of, split_once, split_once_exec, starts_with, starts_with_str, to_chars, trim,
    trim_char_exec, trim_end_char, trim_end_char_exec, trim_start_char, trimmed, owned,
};

verus! {

/// A package name and version.
pub type Dep = (Seq<char>, Seq<char>);

/// The dependency tables of a `package.json`, each a list of name and
/// version entries.
#[derive(Debug, Clone)]
pub struct PackageJson {
    pub dependencies: Option<Vec<(String, String)>>,
    pub dev_dependencies: Option<Vec<(String, String)>>,
    pub peer_dependencies: Option<Vec<(String, String)>>,
    pub optional_dependencies: Option<Vec<(String, String)>>,
}

/// The entries of an optional table (none without it).
pub open spec fn table_entries(t: Option<Vec<(String, String)>>) -> Seq<Dep> {
    match t {
        Some(v) => entry_views(v@),
        None => seq![],
    }
}

/// All the dependencies of a `package.json`: the production, development,
/// peer and optional tables, a later table overriding an earlier one's
/// version of a name.
pub open spec fn all_dependencies(p: PackageJson) -> Map<Seq<char>, Seq<char>> {
    map_of(
        table_entries(p.dependencies) + table_entries(p.dev_dependencies) + table_entries(
            p.peer_dependencies,
        ) + table_entries(p.optional_dependencies),
    )
}

/// `map_of` of a concatenation is the second mapping over the first.
proof fn lemma_map_of_append(a: Seq<Dep>, b: Seq<Dep>)
    ensures
        map_of(a + b) == map_of(a).union_prefer_right(map_of(b)),
    decreases b.len(),
{
    if b.len() == 0 {
        assert(a + b =~= a);
        assert(map_of(a).union_prefer_right(map_of(b)) =~= map_of(a));
    } else {
        lemma_map_of_append(a, b.drop_last());
        assert((a + b).drop_last() =~= a + b.drop_last());
        assert((a + b).last() == b.last());
        assert(map_of(a + b) =~= map_of(a).union_prefer_right(map_of(b)));
    }
}

/// A copy of a list of entries.
fn copy_entries(v: &Vec<(String, String)>) -> (r: Vec<(String, String)>)
    ensures
        entry_views(r@) == entry_views(v@),
{
    let mut out: Vec<(String, String)> = Vec::new();
    let mut i: usize = 0;
    while i < v.len()
        invariant
            i <= v@.len(),
            entry_views(out@) == entry_views(v@).take(i as int),
        decreases v@.len() - i,
    {
        let ghost before = entry_views(out@);
        let a = owned(v[i].0.as_str());
        let b = owned(v[i].1.as_str());
        assert(entry_views(v@)[i as int] == (a@, b@));
        out.push((a, b));
        assert(entry_views(out@) =~= before.push((a@, b@)));
        assert(entry_views(v@).take(i + 1) =~= entry_views(v@).take(i as int).push((a@, b@)));
        i = i + 1;
    }
    assert(entry_views(v@).take(v@.len() as int) =~= entry_views(v@));
    out
}

/// Adds the entries of an optional table.
fn add_table(m: &mut DependencyMap, t: &Option<Vec<(String, String)>>)
    requires
        old(m).wf(),
    ensures
        final(m).wf(),
        final(m)@ == old(m)@.union_prefer_right(map_of(table_entries(*t))),
{
    match t {
        Some(v) => m.extend(copy_entries(v)),
        None => {
            assert(old(m)@.union_prefer_right(map_of(table_entries(*t))) =~= old(m)@);
        },
    }
}

impl PackageJson {
    /// All the dependencies of the manifest (see `all_dependencies`), each
    /// name once.
    pub fn get_all_dependencies(&self) -> (r: Vec<(String, String)>)
        ensures
            map_of(entry_views(r@)) == all_dependencies(*self),
            distinct_names(entry_views(r@)),
    {
        let mut m = DependencyMap::new();
        add_table(&mut m, &self.dependencies);
        add_table(&mut m, &self.dev_dependencies);
        add_table(&mut m, &self.peer_dependencies);
        add_table(&mut m, &self.optional_dependencies);
        proof {
            let a = table_entries(self.dependencies);
            let b = table_entries(self.dev_dependencies);
            let c = table_entries(self.peer_dependencies);
            let d = table_entries(self.optional_dependencies);
            lemma_map_of_append(a, b);
            lemma_map_of_append(a + b, c);
            lemma_map_of_append(a + b + c, d);
            assert(map_of(a) =~= Map::<Seq<char>, Seq<char>>::empty().union_prefer_right(map_of(a)));
        }
        m.into_entries()
    }
}

/// The packages named by the lines of `npm ls` or `pnpm list` tree output
/// (see `dependency_line`), in order.
pub open spec fn line_dependencies(ls: Seq<Seq<char>>) -> Seq<Dep>
    decreases ls.len(),
{
    if ls.len() == 0 {
        seq![]
    } else {
        let rest = line_dependencies(ls.drop_last());
        match dependency_line(ls.last()) {
            Some(d) => rest.push(d),
            None => rest,
        }
    }
}

/// The packages named by the lines of tree output (see
/// `line_dependencies`).
pub fn parse_dependency_lines(output: &str) -> (r: Vec<(String, String)>)
    ensures
        entry_views(r@) == line_dependencies(lines(output@)),
{
    let oc = to_chars(output);
    let ls = lines_exec(oc.as_slice());
    let ghost lv = seqs(ls@);
    let mut out: Vec<(String, String)> = Vec::new();
    let mut i: usize = 0;
    while i < ls.len()
        invariant
            i <= ls@.len(),
            lv == seqs(ls@),
            entry_views(out@) == line_dependencies(lv.take(i as int)),
        decreases ls@.len() - i,
    {
        assert(lv.take(i + 1).drop_last() =~= lv.take(i as int));
        assert(lv[i as int] == ls@[i as int]@);
        let line = from_chars(ls[i].as_slice());
        match parse_dependency_line(line.as_str()) {
            Some(p) => {
                let ghost before = entry_views(out@);
                let ghost pv = (p.0@, p.1@);
                out.push(p);
                assert(entry_views(out@) =~= before.push(pv));
            },
            None => {},
        }
        i = i + 1;
    }
    assert(lv.take(lv.len() as int) =~= lv);
    out
}

/// `s` split at its last `c`.
pub open spec fn rsplit_at(s: Seq<char>, c: char) -> Option<Dep> {
    match rfind(s, c) {
        Some(i) => Some((s.take(i), s.skip(i + 1))),
        None => None,
    }
}

/// `s` split at its last `c` (see `rsplit_at`).
fn rsplit_at_exec(s: &[char], c: char) -> (r: Option<(String, String)>)
    ensures
        match rsplit_at(s@, c) {
            Some(p) => r matches Some(x) && x.0@ == p.0 && x.1@ == p.1,
            None => r is None,
        },
{
    match rfind_exec(s, c) {
        Some(i) => {
            assert(i < s.len());
            let a = slice_of(s, 0, i);
            let b = slice_of(s, i + 1, s.len());
            Some((from_chars(a.as_slice()), from_chars(b.as_slice())))
        },
        None => None,
    }
}

/// The package a line of `pnpm-lock.yaml` names: a trimmed line starting
/// with `/` and holding a `:` gives what lies between the `/` and its first
/// `:`, split at the last `@`.
pub open spec fn pnpm_lock_line(line: Seq<char>) -> Option<Dep> {
    let t = trim(line);
    if starts_with(t, "/"@) && contains(line, ":"@) {
        let info = t.skip(1);
        match find(info, ":"@) {
            Some(c) => rsplit_at(info.take(c), '@'),
            None => None,
        }
    } else {
        None
    }
}

/// The packages the lines of `pnpm-lock.yaml` name, in order.
pub open spec fn pnpm_lock_dependencies(ls: Seq<Seq<char>>) -> Seq<Dep>
    decreases ls.len(),
{
    if ls.len() == 0 {
        seq![]
    } else {
        let rest = pnpm_lock_dependencies(ls.drop_last());
        match pnpm_lock_line(ls.last()) {
            Some(d) => rest.push(d),
            None => rest,
        }
    }
}

/// The package a line of `pnpm-lock.yaml` names (see `pnpm_lock_line`).
fn pnpm_lock_line_exec(line: &[char]) -> (r: Option<(String, String)>)
    ensures
        match pnpm_lock_line(line@) {
            Some(p) => r matches Some(x) && x.0@ == p.0 && x.1@ == p.1,
            None => r is None,
        },
{
    let t = trimmed(line);
    if starts_with_str(t.as_slice(), "/") && contains_str(line, ":") {
        proof {
            reveal_strlit("/");
        }
        let info = slice_of(t.as_slice(), 1, t.len());
        assert(info@ == t@.skip(1));
        let colon = to_chars(":");
        match find_exec(info.as_slice(), colon.as_slice()) {
            Some(c) => {
                proof {
                    crate::text::lemma_find(info@, colon@);
                }
                let pw = slice_of(info.as_slice(), 0, c);
                rsplit_at_exec(pw.as_slice(), '@')
            },
            None => None,
        }
    } else {
        None
    }
}

/// The packages of a `pnpm-lock.yaml` (see `pnpm_lock_dependencies`).
pub fn pnpm_lockfile_dependencies(content: &str) -> (r: Vec<(String, String)>)
    ensures
        entry_views(r@) == pnpm_lock_dependencies(lines(content@)),
{
    let cc = to_chars(content);
    let ls = lines_exec(cc.as_slice());
    let ghost lv = seqs(ls@);
    let mut out: Vec<(String, String)> = Vec::new();
    let mut i: usize = 0;
    while i < ls.len()
        invariant
            i <= ls@.len(),
            lv == seqs(ls@),
            entry_views(out@) == pnpm_lock_dependencies(lv.take(i as int)),
        decreases ls@.len() - i,
    {
        assert(lv.take(i + 1).drop_last() =~= lv.take(i as int));
        assert(lv[i as int] == ls@[i as int]@);
        match pnpm_lock_line_exec(ls[i].as_slice()) {
            Some(p) => {
                let ghost before = entry_views(out@);
                let ghost pv = (p.0@, p.1@);
                out.push(p);
                assert(entry_views(out@) =~= before.push(pv));
            },
            None => {},
        }
        i = i + 1;
    }
    assert(lv.take(lv.len() as int) =~= lv);
    out
}

/// A `yarn.lock` entry header: a trimmed, non-empty line holding an `@` and
/// ending with `:`.
pub open spec fn yarn_header(t: Seq<char>) -> bool {
    t.len() > 0 && !starts_with(t, " "@) && contains(t, "@"@) && ends_with(t, ":"@)
}

/// `str::trim_matches(c)`.
pub open spec fn trim_both(s: Seq<char>, c: char) -> Seq<char> {
    trim_end_char(trim_start_char(s, c), c)
}

/// One line of `yarn.lock` read with the package of the entry being read:
/// a header names the package (what precedes its first `@`, without
/// quotes); a `version` line records that package at its version (without
/// quotes) and ends the entry.
pub open spec fn yarn_step(cur: Option<Seq<char>>, line: Seq<char>) -> (Option<Seq<char>>, Option<Dep>) {
    let t = trim(line);
    let named = if yarn_header(t) {
        match split_once(trim_end_char(t, ':'), "@"@) {
            Some(p) => Some(trim_both(p.0, '"')),
            None => cur,
        }
    } else {
        cur
    };
    if starts_with(t, "version "@) {
        match named {
            Some(n) => (None, Some((n, trim_both(t.skip(8), '"')))),
            None => (named, None),
        }
    } else {
        (named, None)
    }
}

/// The entry being read after some lines of `yarn.lock`, and the packages
/// recorded, in order.
pub open spec fn yarn_scan(ls: Seq<Seq<char>>) -> (Option<Seq<char>>, Seq<Dep>)
    decreases ls.len(),
{
    if ls.len() == 0 {
        (None, seq![])
    } else {
        let prev = yarn_scan(ls.drop_last());
        let step = yarn_step(prev.0, ls.last());
        (
            step.0,
            match step.1 {
                Some(d) => prev.1.push(d),
                None => prev.1,
            },
        )
    }
}

/// The packages of a `yarn.lock` (see `yarn_scan`).
pub fn yarn_lockfile_dependencies(content: &str) -> (r: Vec<(String, String)>)
    ensures
        entry_views(r@) == yarn_scan(lines(content@)).1,
{
    let cc = to_chars(content);
    let ls = lines_exec(cc.as_slice());
    let ghost lv = seqs(ls@);
    let mut cur: Option<Vec<char>> = None;
    let mut out: Vec<(String, String)> = Vec::new();
    let mut i: usize = 0;
    while i < ls.len()
        invariant
            i <= ls@.len(),
            lv == seqs(ls@),
            yarn_scan(lv.take(i as int)) == (
                match cur {
                    Some(c) => Some(c@),
                    None => None::<Seq<char>>,
                },
                entry_views(out@),
            ),
        decreases ls@.len() - i,
    {
        assert(lv.take(i + 1).drop_last() =~= lv.take(i as int));
        assert(lv[i as int] == ls@[i as int]@);
        let t = trimmed(ls[i].as_slice());
        if t.len() > 0 && !starts_with_str(t.as_slice(), " ") && contains_str(t.as_slice(), "@")
            && ends_with_str(t.as_slice(), ":") {
            let pl = trim_end_char_exec(t.as_slice(), ':');
            match split_once_exec(pl.as_slice(), "@") {
                Some((n, _)) => {
                    cur = Some(trim_char_exec(n.as_slice(), '"'));
                },
                None => {},
            }
        }
        if starts_with_str(t.as_slice(), "version ") {
            proof {
                reveal_strlit("version ");
            }
            match cur {
                Some(n) => {
                    let rest = slice_of(t.as_slice(), 8, t.len());
                    let v = trim_char_exec(rest.as_slice(), '"');
                    let ghost before = entry_views(out@);
                    let p = (from_chars(n.as_slice()), from_chars(v.as_slice()));
                    let ghost pv = (p.0@, p.1@);
                    out.push(p);
                    assert(entry_views(out@) =~= before.push(pv));
                    cur = None;
                },
                None => {},
            }
        }
        i = i + 1;
    }
    assert(lv.take(lv.len() as int) =~= lv);
    out
}

/// What follows the last occurrence of `p` in `s` (all of `s` without one).
pub open spec fn after_last(s: Seq<char>, p: Seq<char>) -> Seq<char>
    decreases s.len(),
{
    if p.len() == 0 {
        s
    } else {
        match find(s, p) {
            Some(i) => if 0 <= i && i + p.len() <= s.len() {
                after_last(s.skip(i + p.len()), p)
            } else {
                s
            },
            None => s,
        }
    }
}

/// What follows the last occurrence of `p` in `s` (see `after_last`).
fn after_last_exec(s: &[char], p: &[char]) -> (r: Vec<char>)
    ensures
        r@ == after_last(s@, p@),
{
    let mut cur = slice_of(s, 0, s.len());
    assert(cur@ =~= s@);
    if p.len() == 0 {
        return cur;
    }
    loop
        invariant
            p@.len() > 0,
            after_last(cur@, p@) == after_last(s@, p@),
        decreases cur@.len(),
    {
        match find_exec(cur.as_slice(), p) {
            Some(i) => {
                proof {
                    crate::text::lemma_find(cur@, p@);
                }
                assert(crate::text::occurs_at(cur@, p@, i as int));
                assert(i + p@.len() <= cur@.len());
                let clen = cur.len();
                let j: usize = i + p.len();
                let next = slice_of(cur.as_slice(), j, clen);
                assert(next@ =~= cur@.skip(i + p@.len()));
                cur = next;
            },
            None => {
                return cur;
            },
        }
    }
}

/// The package a line of `npm ls --parseable` output lies in: for a line
/// holding `node_modules`, the first segment of what follows its last
/// `node_modules/`, with the second for a scoped (`@`) name.
pub open spec fn parseable_package(line: Seq<char>) -> Option<Seq<char>> {
    if contains(line, "node_modules"@) {
        let parts = crate::text::split(after_last(line, "node_modules/"@), '/');
        if starts_with(parts[0], "@"@) && parts.len() > 1 {
            Some(parts[0] + "/"@ + parts[1])
        } else {
            Some(parts[0])
        }
    } else {
        None
    }
}

/// The packages of the lines of `npm ls --parseable` output, each with the
/// line (its directory), in order.
pub open spec fn parseable_packages(ls: Seq<Seq<char>>) -> Seq<Dep>
    decreases ls.len(),
{
    if ls.len() == 0 {
        seq![]
    } else {
        let rest = parseable_packages(ls.drop_last());
        match parseable_package(ls.last()) {
            Some(n) => rest.push((n, ls.last())),
            None => rest,
        }
    }
}

/// The package a line of `npm ls --parseable` output lies in (see
/// `parseable_package`).
fn parseable_package_exec(line: &[char]) -> (r: Option<String>)
    ensures
        match parseable_package(line@) {
            Some(n) => r matches Some(x) && x@ == n,
            None => r is None,
        },
{
    if !contains_str(line, "node_modules") {
        return None;
    }
    let marker = to_chars("node_modules/");
    let tail = after_last_exec(line, marker.as_slice());
    let parts = crate::text::split_exec(tail.as_slice(), '/');
    proof {
        crate::text::lemma_split_acc_nonempty(tail@, '/', seq![]);
    }
    assert(seqs(parts@).len() == parts@.len());
    assert(seqs(parts@)[0] == parts@[0]@);
    if starts_with_str(parts[0].as_slice(), "@") && parts.len() > 1 {
        assert(seqs(parts@)[1] == parts@[1]@);
        let mut v = slice_of(parts[0].as_slice(), 0, parts[0].len());
        crate::text::extend_str(&mut v, "/");
        crate::text::extend(&mut v, parts[1].as_slice());
        Some(from_chars(v.as_slice()))
    } else {
        Some(from_chars(parts[0].as_slice()))
    }
}

/// The packages of `npm ls --parseable` output with their directories (see
/// `parseable_packages`); the version of each is read from the
/// `package.json` in its directory.
pub fn npm_parseable_packages(output: &str) -> (r: Vec<(String, String)>)
    ensures
        entry_views(r@) == parseable_packages(lines(output@)),
{
    let oc = to_chars(output);
    let ls = lines_exec(oc.as_slice());
    let ghost lv = seqs(ls@);
    let mut out: Vec<(String, String)> = Vec::new();
    let mut i: usize = 0;
    while i < ls.len()
        invariant
            i <= ls@.len(),
            lv == seqs(ls@),
            entry_views(out@) == parseable_packages(lv.take(i as int)),
        decreases ls@.len() - i,
    {
        assert(lv.take(i + 1).drop_last() =~= lv.take(i as int));
        assert(lv[i as int] == ls@[i as int]@);
        match parseable_package_exec(ls[i].as_slice()) {
            Some(n) => {
                let ghost before = entry_views(out@);
                let line = from_chars(ls[i].as_slice());
                let ghost pv = (n@, line@);
                out.push((n, line));
                assert(entry_views(out@) =~= before.push(pv));
            },
            None => {},
        }
        i = i + 1;
    }
    assert(lv.take(lv.len() as int) =~= lv);
    out
}

/// The `version` of a `package.json`.
pub open spec fn manifest_version(content: Seq<char>) -> Option<Seq<char>> {
    json_string(content, seq!["version"@])
}

/// The version a package's `package.json` declares (see
/// `manifest_version`).
pub fn package_version(content: &str) -> (r: Option<String>)
    ensures
        opt_string(r) == manifest_version(content@),
{
    json_string_at(content, &path1("version"))
}

/// A license value worth reporting: present, not empty and not
/// `UNLICENSED`.
pub open spec fn usable(l: Option<Seq<char>>) -> Option<Seq<char>> {
    match l {
        Some(x) => if x.len() > 0 && x != "UNLICENSED"@ {
            Some(x)
        } else {
            None
        },
        None => None,
    }
}

/// Keeps a license value worth reporting (see `usable`).
fn usable_exec(l: Option<String>) -> (r: Option<String>)
    ensures
        opt_string(r) == usable(opt_string(l)),
{
    match l {
        Some(x) => {
            let xc = to_chars(x.as_str());
            if xc.len() > 0 && !crate::text::eq_str(xc.as_slice(), "UNLICENSED") {
                Some(x)
            } else {
                None
            }
        },
        None => None,
    }
}

/// The license a package's `package.json` declares: its `license` when
/// worth reporting, else the `type` of the first item of its `licenses`.
pub open spec fn manifest_license(content: Seq<char>) -> Option<Seq<char>> {
    match usable(json_string(content, seq!["license"@])) {
        Some(l) => Some(l),
        None => json_first_item_string(content, seq!["licenses"@], "type"@),
    }
}

/// The license a package's `package.json` declares (see
/// `manifest_license`).
pub fn package_json_license(content: &str) -> (r: Option<String>)
    ensures
        opt_string(r) == manifest_license(content@),
{
    match usable_exec(json_string_at(content, &path1("license"))) {
        Some(l) => Some(l),
        None => json_first_item_string_at(content, &path1("licenses"), "type"),
    }
}

/// The places of a package's `package.json` under a project, as path
/// segments: under `node_modules`, then under pnpm's
/// `node_modules/.pnpm/node_modules`; a scoped name (`@scope/name`) takes
/// two segments, and one without a `/` has no place.
pub open spec fn manifest_places(name: Seq<char>) -> Seq<Seq<Seq<char>>> {
    if starts_with(name, "@"@) {
        match split_once(name, "/"@) {
            Some(p) => seq![
                seq!["node_modules"@, p.0, p.1, "package.json"@],
                seq!["node_modules"@, ".pnpm"@, "node_modules"@, p.0, p.1, "package.json"@],
            ],
            None => seq![],
        }
    } else {
        seq![
            seq!["node_modules"@, name, "package.json"@],
            seq!["node_modules"@, ".pnpm"@, "node_modules"@, name, "package.json"@],
        ]
    }
}

/// Appends a path segment.
fn push_segment(v: &mut Vec<String>, piece: &str)
    ensures
        crate::licenses::string_views(final(v)@) == crate::licenses::string_views(old(v)@).push(piece@),
{
    let ghost before = crate::licenses::string_views(v@);
    v.push(owned(piece));
    assert(crate::licenses::string_views(v@) =~= before.push(piece@));
}

/// The segments `node_modules`, then `.pnpm` and `node_modules` again when
/// `pnpm`, then `pieces`, then `package.json`.
fn manifest_place(pnpm: bool, pieces: &Vec<String>) -> (r: Vec<String>)
    ensures
        crate::licenses::string_views(r@) == (if pnpm {
            seq!["node_modules"@, ".pnpm"@, "node_modules"@]
        } else {
            seq!["node_modules"@]
        }) + crate::licenses::string_views(pieces@) + seq!["package.json"@],
{
    let mut out: Vec<String> = Vec::new();
    assert(crate::licenses::string_views(out@) =~= Seq::<Seq<char>>::empty());
    push_segment(&mut out, "node_modules");
    if pnpm {
        push_segment(&mut out, ".pnpm");
        push_segment(&mut out, "node_modules");
    }
    let ghost head = crate::licenses::string_views(out@);
    let mut i: usize = 0;
    while i < pieces.len()
        invariant
            i <= pieces@.len(),
            crate::licenses::string_views(out@) == head + crate::licenses::string_views(pieces@).take(i as int),
        decreases pieces@.len() - i,
    {
        push_segment(&mut out, pieces[i].as_str());
        assert(crate::licenses::string_views(pieces@).take(i + 1) =~= crate::licenses::string_views(pieces@).take(
            i as int,
        ).push(pieces@[i as int]@));
        i = i + 1;
    }
    assert(crate::licenses::string_views(pieces@).take(pieces@.len() as int) =~= crate::licenses::string_views(
        pieces@,
    ));
    push_segment(&mut out, "package.json");
    out
}

/// The views of lists of path segments.
pub open spec fn places_view(v: Seq<Vec<String>>) -> Seq<Seq<Seq<char>>> {
    v.map_values(|p: Vec<String>| crate::licenses::string_views(p@))
}

/// The places of a package's `package.json` under a project (see
/// `manifest_places`).
pub fn package_json_places(package_name: &str) -> (r: Vec<Vec<String>>)
    ensures
        places_view(r@) == manifest_places(package_name@),
{
    let nc = to_chars(package_name);
    let mut pieces: Vec<String> = Vec::new();
    if starts_with_str(nc.as_slice(), "@") {
        match split_once_exec(nc.as_slice(), "/") {
            Some((a, b)) => {
                push_segment(&mut pieces, from_chars(a.as_slice()).as_str());
                push_segment(&mut pieces, from_chars(b.as_slice()).as_str());
            },
            None => {
                let out: Vec<Vec<String>> = Vec::new();
                assert(places_view(out@) =~= manifest_places(package_name@));
                return out;
            },
        }
    } else {
        push_segment(&mut pieces, package_name);
    }
    assert(crate::licenses::string_views(pieces@) == match split_once(package_name@, "/"@) {
        Some(p) => if starts_with(package_name@, "@"@) { seq![p.0, p.1] } else { seq![package_name@] },
        None => seq![package_name@],
    });
    let first = manifest_place(false, &pieces);
    let second = manifest_place(true, &pieces);
    let mut out: Vec<Vec<String>> = Vec::new();
    out.push(first);
    out.push(second);
    assert(places_view(out@) =~~= manifest_places(package_name@));
    out
}

/// The first license declared by the readable manifests, in order (see
/// `manifest_license`).
pub open spec fn first_manifest_license(contents: Seq<Option<Seq<char>>>) -> Option<Seq<char>>
    decreases contents.len(),
{
    if contents.len() == 0 {
        None
    } else {
        match contents[0] {
            Some(c) => match manifest_license(c) {
                Some(l) => Some(l),
                None => first_manifest_license(contents.drop_first()),
            },
            None => first_manifest_license(contents.drop_first()),
        }
    }
}

/// The views of optional texts.
pub open spec fn opt_views(v: Seq<Option<String>>) -> Seq<Option<Seq<char>>> {
    v.map_values(|o: Option<String>| opt_string(o))
}

/// The license of a package from the texts of its `package.json` files, in
/// the order of `package_json_places` (`None` for one that could not be
/// read).
pub fn get_license_from_package_json(contents: &Vec<Option<String>>) -> (r: Option<String>)
    ensures
        opt_string(r) == first_manifest_license(opt_views(contents@)),
{
    let ghost cs = opt_views(contents@);
    let mut i: usize = 0;
    assert(cs.skip(0) =~= cs);
    while i < contents.len()
        invariant
            i <= contents@.len(),
            cs == opt_views(contents@),
            first_manifest_license(cs) == first_manifest_license(cs.skip(i as int)),
        decreases contents@.len() - i,
    {
        assert(cs.skip(i as int)[0] == opt_string(contents@[i as int]));
        assert(cs.skip(i as int).drop_first() =~= cs.skip(i + 1));
        match &contents[i] {
            Some(c) => match package_json_license(c.as_str()) {
                Some(l) => {
                    return Some(l);
                },
                None => {},
            },
            None => {},
        }
        i = i + 1;
    }
    None
}

/// The package argument of `npm view`: the name, with `@` and the cleaned
/// version unless that is `latest` or empty.
pub open spec fn view_spec(name: Seq<char>, version: Seq<char>) -> Seq<char> {
    let c = clean_version(version);
    if c == "latest"@ || c.len() == 0 {
        name
    } else {
        name + "@"@ + c
    }
}

/// The package argument of `npm view` (see `view_spec`).
pub fn npm_view_spec(package_name: &str, version: &str) -> (r: String)
    ensures
        r@ == view_spec(package_name@, version@),
{
    let c = clean_version_string(version);
    let cc = to_chars(c.as_str());
    if crate::text::eq_str(cc.as_slice(), "latest") || cc.len() == 0 {
        owned(package_name)
    } else {
        let mut v = to_chars(package_name);
        crate::text::extend_str(&mut v, "@");
        crate::text::extend(&mut v, cc.as_slice());
        from_chars(v.as_slice())
    }
}

/// The license `npm view <package> license --json` printed: the JSON string
/// it printed, else the trimmed output without quotes unless empty or
/// `undefined`.
pub open spec fn view_license(output: Seq<char>) -> Option<Seq<char>> {
    match json_string(output, seq![]) {
        Some(l) => Some(l),
        None => {
            let t = trim_both(trim(output), '"');
            if t.len() > 0 && t != "undefined"@ {
                Some(t)
            } else {
                None
            }
        },
    }
}

/// The license `npm view` printed (see `view_license`).
pub fn npm_view_license(output: &str) -> (r: Option<String>)
    ensures
        opt_string(r) == view_license(output@),
{
    match json_string_at(output, &crate::documents::path0()) {
        Some(l) => Some(l),
        None => {
            let oc = to_chars(output);
            let t0 = trimmed(oc.as_slice());
            let t = trim_char_exec(t0.as_slice(), '"');
            if t.len() > 0 && !crate::text::eq_str(t.as_slice(), "undefined") {
                Some(from_chars(t.as_slice()))
            } else {
                None
            }
        },
    }
}

/// The npm registry documents to consult for a package: that of the
/// version (unless it is `latest` or empty), then that of the latest
/// release.
pub open spec fn registry_urls(name: Seq<char>, version: Seq<char>) -> Seq<Seq<char>> {
    let latest = "https://registry.npmjs.org/"@ + name;
    if version == "latest"@ || version.len() == 0 {
        seq![latest]
    } else {
        seq![latest + "/"@ + version, latest]
    }
}

/// The npm registry documents to consult for a package (see
/// `registry_urls`).
pub fn npm_registry_urls(package_name: &str, version: &str) -> (r: Vec<String>)
    ensures
        crate::licenses::string_views(r@) == registry_urls(package_name@, version@),
{
    let vc = to_chars(version);
    let mut latest = to_chars("https://registry.npmjs.org/");
    crate::text::extend_str(&mut latest, package_name);
    let mut out: Vec<String> = Vec::new();
    assert(crate::licenses::string_views(out@) =~= Seq::<Seq<char>>::empty());
    let ls = from_chars(latest.as_slice());
    let ghost l = "https://registry.npmjs.org/"@ + package_name@;
    assert(ls@ == l);
    if crate::text::eq_str(vc.as_slice(), "latest") || vc.len() == 0 {
        push_segment(&mut out, ls.as_str());
        assert(crate::licenses::string_views(out@) =~= seq![l]);
    } else {
        let mut at = slice_of(latest.as_slice(), 0, latest.len());
        crate::text::extend_str(&mut at, "/");
        crate::text::extend(&mut at, vc.as_slice());
        let s1 = from_chars(at.as_slice());
        assert(s1@ == l + "/"@ + version@);
        push_segment(&mut out, s1.as_str());
        assert(crate::licenses::string_views(out@) =~= seq![l + "/"@ + version@]);
        push_segment(&mut out, ls.as_str());
        assert(crate::licenses::string_views(out@) =~= seq![l + "/"@ + version@, l]);
    }
    assert(crate::licenses::string_views(out@) =~= registry_urls(package_name@, version@));
    out
}

/// The license a registry document declares: the first worth reporting of
/// its `license`, `licenses`.`0`.`type`, `licenses`.`0` and
/// `latest`.`license` (keys, as the registry client looks them up).
pub open spec fn registry_license(body: Seq<char>) -> Option<Seq<char>> {
    match usable(json_string(body, seq!["license"@])) {
        Some(l) => Some(l),
        None => match usable(json_string(body, seq!["licenses"@, "0"@, "type"@])) {
            Some(l) => Some(l),
            None => match usable(json_string(body, seq!["licenses"@, "0"@])) {
                Some(l) => Some(l),
                None => usable(json_string(body, seq!["latest"@, "license"@])),
            },
        },
    }
}

/// The license a registry document declares (see `registry_license`).
pub fn npm_registry_license(body: &str) -> (r: Option<String>)
    ensures
        opt_string(r) == registry_license(body@),
{
    match usable_exec(json_string_at(body, &path1("license"))) {
        Some(l) => {
            return Some(l);
        },
        None => {},
    }
    match usable_exec(json_string_at(body, &crate::documents::path3("licenses", "0", "type"))) {
        Some(l) => {
            return Some(l);
        },
        None => {},
    }
    match usable_exec(json_string_at(body, &path2("licenses", "0"))) {
        Some(l) => {
            return Some(l);
        },
        None => {},
    }
    usable_exec(json_string_at(body, &path2("latest", "license")))
}

/// The prefix of the `.pnpm` directory of a package: `name@version`.
pub open spec fn store_prefix(name: Seq<char>, version: Seq<char>) -> Seq<char> {
    name + "@"@ + version
}

/// The first of the directory names that starts with the store prefix of a
/// package (see `store_prefix`), by its index.
pub fn pnpm_store_directory(names: &Vec<String>, package_name: &str, version: &str) -> (r: Option<usize>)
    ensures
        match r {
            Some(i) => i < names@.len() && starts_with(names@[i as int]@, store_prefix(package_name@, version@))
                && forall|j: int| 0 <= j < i ==> !starts_with(#[trigger] names@[j]@, store_prefix(package_name@, version@)),
            None => forall|j: int| 0 <= j < names@.len() ==> !starts_with(#[trigger] names@[j]@, store_prefix(package_name@, version@)),
        },
{
    let mut p = to_chars(package_name);
    crate::text::extend_str(&mut p, "@");
    crate::text::extend_str(&mut p, version);
    let mut i: usize = 0;
    while i < names.len()
        invariant
            i <= names@.len(),
            p@ == store_prefix(package_name@, version@),
            forall|j: int| 0 <= j < i ==> !starts_with(#[trigger] names@[j]@, p@),
        decreases names@.len() - i,
    {
        let nc = to_chars(names[i].as_str());
        if crate::text::starts_with_exec(nc.as_slice(), p.as_slice()) {
            return Some(i);
        }
        i = i + 1;
    }
    None
}

/// The license the `package.json` of a package's `.pnpm` directory declares:
/// its `license` when worth reporting (see `usable`).
pub open spec fn store_license(content: Seq<char>) -> Option<Seq<char>> {
    usable(json_string(content, seq!["license"@]))
}

/// The license of a package's `package.json` in the pnpm store (see
/// `store_license`).
pub fn pnpm_store_license(content: &str) -> (r: Option<String>)
    ensures
        opt_string(r) == store_license(content@),
{
    usable_exec(json_string_at(content, &path1("license")))
}

/// The packages the `from` fields of a `pnpm why --json` answer name, split
/// at their last `@`, in order.
pub open spec fn why_packages(froms: Seq<Option<Seq<char>>>) -> Seq<Dep>
    decreases froms.len(),
{
    if froms.len() == 0 {
        seq![]
    } else {
        let rest = why_packages(froms.drop_last());
        match froms.last() {
            Some(f) => match rsplit_at(f, '@') {
                Some(d) => rest.push(d),
                None => rest,
            },
            None => rest,
        }
    }
}

/// The packages the dependents of a `pnpm why --json` answer come from,
/// given the `from` of each dependent when it is a string (see
/// `why_packages`).
pub fn pnpm_why_dependencies(froms: &Vec<Option<String>>) -> (r: Vec<(String, String)>)
    ensures
        entry_views(r@) == why_packages(opt_views(froms@)),
{
    let ghost fv = opt_views(froms@);
    let mut out: Vec<(String, String)> = Vec::new();
    let mut i: usize = 0;
    while i < froms.len()
        invariant
            i <= froms@.len(),
            fv == opt_views(froms@),
            entry_views(out@) == why_packages(fv.take(i as int)),
        decreases froms@.len() - i,
    {
        assert(fv.take(i + 1).drop_last() =~= fv.take(i as int));
        assert(fv[i as int] == opt_string(froms@[i as int]));
        match &froms[i] {
            Some(f) => {
                let fc = to_chars(f.as_str());
                match rsplit_at_exec(fc.as_slice(), '@') {
                    Some(p) => {
                        let ghost before = entry_views(out@);
                        let ghost pv = (p.0@, p.1@);
                        out.push(p);
                        assert(entry_views(out@) =~= before.push(pv));
                    },
                    None => {},
                }
            },
            None => {},
        }
        i = i + 1;
    }
    assert(fv.take(fv.len() as int) =~= fv);
    out
}

/// An entry of the `packages` table of a `package-lock.json`: its key (the
/// package's path) and its `name` and `version` when they are strings.
#[derive(Debug, Clone)]
pub struct LockEntry {
    pub path: String,
    pub name: Option<String>,
    pub version: Option<String>,
}

/// The view of a `package-lock.json` entry.
pub open spec fn lock_entry_view(e: LockEntry) -> (Seq<char>, Option<Seq<char>>, Option<Seq<char>>) {
    (e.path@, opt_string(e.name), opt_string(e.version))
}

/// The entries of the `packages` table of the `package-lock.json` text
/// `content`, each with its `name` and `version` where they are strings, in
/// the order the table lists them; none without such a table (or when the
/// text is no JSON).
pub fn lock_entries_from_json(content: &str) -> (r: Vec<LockEntry>)
    ensures
        r@.map_values(|e: LockEntry| lock_entry_view(e)) == match json_entry_fields(
            content@,
            seq!["packages"@],
            "name"@,
            "version"@,
        ) {
            Some(es) => es,
            None => seq![],
        },
{
    let mut out: Vec<LockEntry> = Vec::new();
    match json_entry_fields_at(content, &path1("packages"), "name", "version") {
        Some(es) => {
            let ghost ev = entry_field_views(es@);
            let mut i: usize = 0;
            while i < es.len()
                invariant
                    i <= es@.len(),
                    ev == entry_field_views(es@),
                    out@.map_values(|e: LockEntry| lock_entry_view(e)) == ev.take(i as int),
                decreases es@.len() - i,
            {
                let ghost before = out@;
                let name = match &es[i].1 {
                    Some(n) => Some(owned(n.as_str())),
                    None => None,
                };
                let version = match &es[i].2 {
                    Some(v) => Some(owned(v.as_str())),
                    None => None,
                };
                out.push(LockEntry { path: owned(es[i].0.as_str()), name, version });
                assert(out@.map_values(|e: LockEntry| lock_entry_view(e)) =~= before.map_values(
                    |e: LockEntry| lock_entry_view(e),
                ).push(ev[i as int]));
                assert(ev.take(i + 1) =~= ev.take(i as int).push(ev[i as int]));
                i = i + 1;
            }
            assert(ev.take(es@.len() as int) =~= ev);
        },
        None => {
            assert(out@.map_values(|e: LockEntry| lock_entry_view(e)) =~= Seq::<
                (Seq<char>, Option<Seq<char>>, Option<Seq<char>>),
            >::empty());
        },
    }
    out
}

/// The package a `package-lock.json` entry records: one of the root (empty
/// path) or of a path under `node_modules/`, with both a name and a
/// version.
pub open spec fn lock_entry_package(e: LockEntry) -> Option<Dep> {
    if e.path@.len() == 0 || starts_with(e.path@, "node_modules/"@) {
        match (e.name, e.version) {
            (Some(n), Some(v)) => Some((n@, v@)),
            _ => None,
        }
    } else {
        None
    }
}

/// The packages `package-lock.json` entries record, in order.
pub open spec fn lock_packages(es: Seq<LockEntry>) -> Seq<Dep>
    decreases es.len(),
{
    if es.len() == 0 {
        seq![]
    } else {
        let rest = lock_packages(es.drop_last());
        match lock_entry_package(es.last()) {
            Some(d) => rest.push(d),
            None => rest,
        }
    }
}

/// The packages of the `packages` table of a `package-lock.json` (see
/// `lock_packages`).
pub fn npm_lockfile_dependencies(entries: &Vec<LockEntry>) -> (r: Vec<(String, String)>)
    ensures
        entry_views(r@) == lock_packages(entries@),
{
    let mut out: Vec<(String, String)> = Vec::new();
    let mut i: usize = 0;
    while i < entries.len()
        invariant
            i <= entries@.len(),
            entry_views(out@) == lock_packages(entries@.take(i as int)),
        decreases entries@.len() - i,
    {
        assert(entries@.take(i + 1).drop_last() =~= entries@.take(i as int));
        let e = &entries[i];
        let pc = to_chars(e.path.as_str());
        if pc.len() == 0 || starts_with_str(pc.as_slice(), "node_modules/") {
            match (&e.name, &e.version) {
                (Some(n), Some(v)) => {
                    let ghost before = entry_views(out@);
                    let p = (owned(n.as_str()), owned(v.as_str()));
                    let ghost pv = (p.0@, p.1@);
                    out.push(p);
                    assert(entry_views(out@) =~= before.push(pv));
                },
                _ => {},
            }
        }
        i = i + 1;
    }
    assert(entries@.take(entries@.len() as int) =~= entries@);
    out
}

/// A dependency listed in the JSON output of `npm ls` or `pnpm list`: the
/// name it is listed under, its `version` when a string, and the
/// dependencies listed under it.
#[derive(Debug)]
pub struct ListedDependency {
    pub name: String,
    pub version: Option<String>,
    pub dependencies: Vec<ListedDependency>,
}

/// A listed dependency itself, when it has a version.
pub open spec fn own_package(d: ListedDependency) -> Seq<Dep> {
    match d.version {
        Some(v) => seq![(d.name@, v@)],
        None => seq![],
    }
}

/// The packages of a listed dependency, depth first: itself when it has a
/// version, then those listed under it.
pub open spec fn node_packages(d: ListedDependency) -> Seq<Dep>
    decreases d, 1int,
{
    own_package(d) + list_packages(d.dependencies@)
}

/// The packages of a list of listed dependencies, depth first, in order.
pub open spec fn list_packages(ds: Seq<ListedDependency>) -> Seq<Dep>
    decreases ds, 0int,
{
    if ds.len() == 0 {
        seq![]
    } else {
        list_packages(ds.drop_last()) + node_packages(ds.last())
    }
}

/// Adding two lists of entries in turn adds their concatenation.
proof fn lemma_add_in_turn(m: Map<Seq<char>, Seq<char>>, a: Seq<Dep>, b: Seq<Dep>)
    ensures
        m.union_prefer_right(map_of(a)).union_prefer_right(map_of(b)) == m.union_prefer_right(map_of(a + b)),
{
    lemma_map_of_append(a, b);
    assert(m.union_prefer_right(map_of(a)).union_prefer_right(map_of(b)) =~= m.union_prefer_right(
        map_of(a).union_prefer_right(map_of(b)),
    ));
}

/// Adds the packages of a listed dependency (see `node_packages`).
fn add_listed(d: &ListedDependency, m: &mut DependencyMap)
    requires
        old(m).wf(),
    ensures
        final(m).wf(),
        final(m)@ == old(m)@.union_prefer_right(map_of(node_packages(*d))),
    decreases *d, 1int,
{
    let ghost start = m@;
    let ghost own = own_package(*d);
    match &d.version {
        Some(v) => {
            m.insert(owned(d.name.as_str()), owned(v.as_str()));
            assert(own == seq![(d.name@, v@)]);
            assert(own.drop_last() =~= Seq::<Dep>::empty());
            assert(own.last() == (d.name@, v@));
            assert(map_of(Seq::<Dep>::empty()) == Map::<Seq<char>, Seq<char>>::empty());
            assert(map_of(own) =~= Map::<Seq<char>, Seq<char>>::empty().insert(d.name@, v@));
            assert(m@ =~= start.union_prefer_right(map_of(own)));
        },
        None => {
            assert(m@ =~= start.union_prefer_right(map_of(own)));
        },
    }
    extract_deps_recursive(&d.dependencies, m);
    proof {
        lemma_add_in_turn(start, own, list_packages(d.dependencies@));
    }
}

/// Adds the packages of a list of listed dependencies, depth first (see
/// `list_packages`).
pub fn extract_deps_recursive(ds: &Vec<ListedDependency>, m: &mut DependencyMap)
    requires
        old(m).wf(),
    ensures
        final(m).wf(),
        final(m)@ == old(m)@.union_prefer_right(map_of(list_packages(ds@))),
    decreases ds@, 0int,
{
    let ghost start = m@;
    let mut i: usize = 0;
    assert(list_packages(ds@.take(0)) =~= Seq::<Dep>::empty());
    assert(start.union_prefer_right(map_of(Seq::<Dep>::empty())) =~= start);
    while i < ds.len()
        invariant
            i <= ds@.len(),
            m.wf(),
            m@ == start.union_prefer_right(map_of(list_packages(ds@.take(i as int)))),
        decreases ds@.len() - i,
    {
        assert(ds@.take(i + 1).drop_last() =~= ds@.take(i as int));
        assert(ds@.take(i + 1).last() == ds@[i as int]);
        let ghost before = m@;
        assert(decreases_to!(ds@ => ds@[i as int]));
        add_listed(&ds[i], m);
        proof {
            lemma_add_in_turn(start, list_packages(ds@.take(i as int)), node_packages(ds@[i as int]));
        }
        i = i + 1;
    }
    assert(ds@.take(ds@.len() as int) =~= ds@);
}

/// What `extract_dependencies_from_json` reads of a JSON listing: the
/// `dependencies` of a document that is an object (empty without one),
/// the `dependencies` and `devDependencies` of each project of a document
/// that is an array, and the `name` of each of the `trees` of an object
/// (when a string).
#[derive(Debug)]
pub struct NodeListing {
    pub dependencies: Vec<ListedDependency>,
    pub projects: Vec<(Vec<ListedDependency>, Vec<ListedDependency>)>,
    pub tree_names: Vec<Option<String>>,
}

/// The packages of the projects of a listing, in order.
pub open spec fn project_packages(ps: Seq<(Vec<ListedDependency>, Vec<ListedDependency>)>) -> Seq<Dep>
    decreases ps.len(),
{
    if ps.len() == 0 {
        seq![]
    } else {
        project_packages(ps.drop_last()) + list_packages(ps.last().0@) + list_packages(ps.last().1@)
    }
}

/// The packages a JSON listing names: those of its dependencies, then of
/// its projects, then the tree names split at their last `@`.
pub open spec fn listing_packages(l: NodeListing) -> Seq<Dep> {
    list_packages(l.dependencies@) + project_packages(l.projects@) + why_packages(opt_views(l.tree_names@))
}

/// Adds the packages a JSON listing of `npm ls`, `pnpm list` or `yarn list`
/// names (see `listing_packages`).
pub fn extract_dependencies_from_json(listing: &NodeListing, dependencies: &mut DependencyMap)
    requires
        old(dependencies).wf(),
    ensures
        final(dependencies).wf(),
        final(dependencies)@ == old(dependencies)@.union_prefer_right(map_of(listing_packages(*listing))),
{
    let ghost start = dependencies@;
    extract_deps_recursive(&listing.dependencies, dependencies);
    let ghost after_deps = dependencies@;
    let mut i: usize = 0;
    assert(project_packages(listing.projects@.take(0)) =~= Seq::<Dep>::empty());
    assert(after_deps.union_prefer_right(map_of(Seq::<Dep>::empty())) =~= after_deps);
    while i < listing.projects.len()
        invariant
            i <= listing.projects@.len(),
            dependencies.wf(),
            dependencies@ == after_deps.union_prefer_right(map_of(project_packages(listing.projects@.take(i as int)))),
        decreases listing.projects@.len() - i,
    {
        let ghost ps = listing.projects@;
        assert(ps.take(i + 1).drop_last() =~= ps.take(i as int));
        assert(ps.take(i + 1).last() == ps[i as int]);
        extract_deps_recursive(&listing.projects[i].0, dependencies);
        extract_deps_recursive(&listing.projects[i].1, dependencies);
        proof {
            let pre = project_packages(ps.take(i as int));
            lemma_add_in_turn(after_deps, pre, list_packages(ps[i as int].0@));
            lemma_add_in_turn(after_deps, pre + list_packages(ps[i as int].0@), list_packages(ps[i as int].1@));
        }
        i = i + 1;
    }
    assert(listing.projects@.take(listing.projects@.len() as int) =~= listing.projects@);
    let trees = pnpm_why_dependencies(&listing.tree_names);
    let ghost before_trees = dependencies@;
    dependencies.extend(trees);
    proof {
        let a = list_packages(listing.dependencies@);
        let b = project_packages(listing.projects@);
        let c = why_packages(opt_views(listing.tree_names@));
        lemma_add_in_turn(start, a, b);
        lemma_add_in_turn(start, a + b, c);
    }
}

/// The key path `path` followed by `key`.
fn path_then(path: &Vec<String>, key: &str) -> (r: Vec<String>)
    ensures
        string_views(r@) == string_views(path@).push(key@),
{
    let mut r: Vec<String> = Vec::new();
    let mut i: usize = 0;
    while i < path.len()
        invariant
            i <= path@.len(),
            string_views(r@) == string_views(path@.take(i as int)),
        decreases path@.len() - i,
    {
        let ghost before = string_views(r@);
        r.push(owned(path[i].as_str()));
        assert(string_views(r@) =~= before.push(path@[i as int]@));
        assert(string_views(path@.take(i + 1)) =~= string_views(path@.take(i as int)).push(path@[i as int]@));
        i = i + 1;
    }
    assert(path@.take(path@.len() as int) =~= path@);
    let ghost before = string_views(r@);
    r.push(owned(key));
    assert(string_views(r@) =~= before.push(key@));
    r
}

/// The entries a JSON listing holds at `path`: each key of the object there,
/// with the string `version` of its value when there is one; none without
/// an object there. `serde_json` parses no document nested deeper than 127
/// levels, so the bound on the length of `path` cuts nothing off.
pub open spec fn tree_children(text: Seq<char>, path: Seq<Seq<char>>) -> Seq<(Seq<char>, Option<Seq<char>>)> {
    if path.len() < 128 {
        match json_field_entries(text, path, "version"@) {
            Some(es) => es,
            None => seq![],
        }
    } else {
        seq![]
    }
}

/// Whether `ds` are the dependencies a JSON listing lists by the entries
/// `es` found at `path`, one for each entry in order, each with the
/// dependencies listed under it.
pub open spec fn tree_matches(
    ds: Seq<ListedDependency>,
    es: Seq<(Seq<char>, Option<Seq<char>>)>,
    text: Seq<char>,
    path: Seq<Seq<char>>,
) -> bool
    decreases ds, 0int,
{
    if ds.len() == 0 {
        es.len() == 0
    } else {
        &&& es.len() == ds.len()
        &&& tree_matches(ds.drop_last(), es.drop_last(), text, path)
        &&& node_matches(ds.last(), es.last(), text, path)
    }
}

/// Whether `d` is the dependency a JSON listing lists by the entry `e`
/// found at `path`: its name and version, and as its dependencies those
/// listed under the entry's `dependencies`.
pub open spec fn node_matches(
    d: ListedDependency,
    e: (Seq<char>, Option<Seq<char>>),
    text: Seq<char>,
    path: Seq<Seq<char>>,
) -> bool
    decreases d, 1int,
{
    let p = path.push(e.0).push("dependencies"@);
    &&& d.name@ == e.0
    &&& opt_string(d.version) == e.1
    &&& tree_matches(d.dependencies@, tree_children(text, p), text, p)
}

/// Whether `ds` are the dependencies a JSON listing lists at `path`.
pub open spec fn listed_under(ds: Seq<ListedDependency>, text: Seq<char>, path: Seq<Seq<char>>) -> bool {
    tree_matches(ds, tree_children(text, path), text, path)
}

/// The dependencies a JSON listing lists at `path` (see `listed_under`).
fn listed_at(text: &str, path: &Vec<String>) -> (r: Vec<ListedDependency>)
    ensures
        listed_under(r@, text@, string_views(path@)),
    decreases 130 - path@.len(),
{
    let ghost p = string_views(path@);
    let mut out: Vec<ListedDependency> = Vec::new();
    if path.len() >= 128 {
        return out;
    }
    match json_field_entries_at(text, path, "version") {
        Some(es) => {
            let ghost ev = entry_strings(es@);
            assert(tree_children(text@, p) == ev);
            let mut i: usize = 0;
            while i < es.len()
                invariant
                    i <= es@.len(),
                    path@.len() < 128,
                    p == string_views(path@),
                    ev == entry_strings(es@),
                    tree_matches(out@, ev.take(i as int), text@, p),
                decreases es@.len() - i,
            {
                let named = path_then(path, es[i].0.as_str());
                let child = path_then(&named, "dependencies");
                assert(child@.len() == string_views(child@).len() && path@.len() == p.len());
                let dependencies = listed_at(text, &child);
                let version = match &es[i].1 {
                    Some(v) => Some(owned(v.as_str())),
                    None => None,
                };
                let d = ListedDependency { name: owned(es[i].0.as_str()), version, dependencies };
                let ghost before = out@;
                assert(ev[i as int] == (es@[i as int].0@, opt_string(es@[i as int].1)));
                assert(string_views(child@) == p.push(ev[i as int].0).push("dependencies"@));
                assert(node_matches(d, ev[i as int], text@, p));
                out.push(d);
                assert(out@.drop_last() =~= before);
                assert(ev.take(i + 1).drop_last() =~= ev.take(i as int));
                i = i + 1;
            }
            assert(ev.take(es@.len() as int) =~= ev);
        },
        None => {},
    }
    out
}

/// Whether `l` is what `extract_dependencies_from_json` reads of the JSON
/// listing `text` at `base`: the dependencies listed under its
/// `dependencies`; when the value at `base` is an array, the `dependencies`
/// and `devDependencies` of each of its items; and the `name` of each of
/// its `trees` (none without such an array).
pub open spec fn listing_matches(l: NodeListing, text: Seq<char>, base: Seq<Seq<char>>) -> bool {
    &&& listed_under(l.dependencies@, text, base.push("dependencies"@))
    &&& match json_item_texts(text, base) {
        Some(items) => {
            &&& l.projects@.len() == items.len()
            &&& forall|i: int|
                0 <= i < items.len() ==> {
                    &&& listed_under(#[trigger] l.projects@[i].0@, items[i], seq!["dependencies"@])
                    &&& listed_under(l.projects@[i].1@, items[i], seq!["devDependencies"@])
                }
        },
        None => l.projects@.len() == 0,
    }
    &&& opt_views(l.tree_names@) == match json_item_strings(text, base.push("trees"@), "name"@) {
        Some(names) => names,
        None => seq![],
    }
}

/// What a JSON listing holds at `base` (see `listing_matches`).
fn listing_at(text: &str, base: &Vec<String>) -> (r: NodeListing)
    ensures
        listing_matches(r, text@, string_views(base@)),
{
    let ghost b = string_views(base@);
    let dependencies = listed_at(text, &path_then(base, "dependencies"));
    let mut projects: Vec<(Vec<ListedDependency>, Vec<ListedDependency>)> = Vec::new();
    match json_item_texts_at(text, base) {
        Some(items) => {
            let mut i: usize = 0;
            while i < items.len()
                invariant
                    i <= items@.len(),
                    projects@.len() == i,
                    forall|k: int|
                        0 <= k < i ==> {
                            &&& listed_under(#[trigger] projects@[k].0@, items@[k]@, seq!["dependencies"@])
                            &&& listed_under(projects@[k].1@, items@[k]@, seq!["devDependencies"@])
                        },
                decreases items@.len() - i,
            {
                let deps = listed_at(items[i].as_str(), &path1("dependencies"));
                let dev = listed_at(items[i].as_str(), &path1("devDependencies"));
                projects.push((deps, dev));
                i = i + 1;
            }
            assert(strs(items@).len() == items@.len());
            assert forall|k: int| 0 <= k < items@.len() implies strs(items@)[k] == items@[k]@ by {}
        },
        None => {},
    }
    let tree_names = match json_item_strings_at(text, &path_then(base, "trees"), "name") {
        Some(names) => names,
        None => {
            let v: Vec<Option<String>> = Vec::new();
            assert(opt_views(v@) =~= Seq::<Option<Seq<char>>>::empty());
            v
        },
    };
    assert(opt_views(tree_names@) =~= opt_strings(tree_names@));
    NodeListing { dependencies, projects, tree_names }
}

/// What `extract_dependencies_from_json` reads of the JSON listing printed
/// by `npm ls --json` or `pnpm list --json` (see `listing_matches`); `None`
/// when the text is no JSON.
pub fn node_listing_from_json(text: &str) -> (r: Option<NodeListing>)
    ensures
        r is Some <==> json_valid(text@),
        r matches Some(l) ==> listing_matches(l, text@, seq![]),
{
    if !json_is_valid(text) {
        return None;
    }
    let base = path0();
    Some(listing_at(text, &base))
}

/// What `extract_dependencies_from_json` reads of a line printed by
/// `yarn list --json`: the listing under its `data` (see
/// `listing_matches`) when its `type` is `tree` and it has `data`; `None`
/// for any other line.
pub fn yarn_tree_listing(line: &str) -> (r: Option<NodeListing>)
    ensures
        r is Some <==> (json_string(line@, seq!["type"@]) == Some("tree"@) && json_has(line@, seq!["data"@])),
        r matches Some(l) ==> listing_matches(l, line@, seq!["data"@]),
{
    let is_tree = match json_string_at(line, &path1("type")) {
        Some(t) => crate::text::eq_str(to_chars(t.as_str()).as_slice(), "tree"),
        None => false,
    };
    if !is_tree || !crate::documents::json_has_at(line, &path1("data")) {
        return None;
    }
    Some(listing_at(line, &path1("data")))
}

/// The dependency tables of a project in the JSON printed by `pnpm list`,
/// in the order they are read.
#[derive(Debug)]
pub struct PnpmProject {
    pub dependencies: Vec<ListedDependency>,
    pub dev_dependencies: Vec<ListedDependency>,
    pub optional_dependencies: Vec<ListedDependency>,
    pub peer_dependencies: Vec<ListedDependency>,
}

/// Whether `p` holds the dependencies the JSON project `text` lists under
/// `dependencies`, `devDependencies`, `optionalDependencies` and
/// `peerDependencies`.
pub open spec fn pnpm_project_matches(p: PnpmProject, text: Seq<char>) -> bool {
    &&& listed_under(p.dependencies@, text, seq!["dependencies"@])
    &&& listed_under(p.dev_dependencies@, text, seq!["devDependencies"@])
    &&& listed_under(p.optional_dependencies@, text, seq!["optionalDependencies"@])
    &&& listed_under(p.peer_dependencies@, text, seq!["peerDependencies"@])
}

/// The dependency tables of a JSON project (see `pnpm_project_matches`).
fn pnpm_project_at(text: &str) -> (r: PnpmProject)
    ensures
        pnpm_project_matches(r, text@),
{
    PnpmProject {
        dependencies: listed_at(text, &path1("dependencies")),
        dev_dependencies: listed_at(text, &path1("devDependencies")),
        optional_dependencies: listed_at(text, &path1("optionalDependencies")),
        peer_dependencies: listed_at(text, &path1("peerDependencies")),
    }
}

/// The projects of the JSON printed by `pnpm list`: each item of an array,
/// or the document itself when it is no array and `arrays_only` is false
/// (none when it is true); `None` when the text is no JSON.
pub fn pnpm_listing_projects(text: &str, arrays_only: bool) -> (r: Option<Vec<PnpmProject>>)
    ensures
        r is Some <==> json_valid(text@),
        r matches Some(ps) ==> match json_item_texts(text@, seq![]) {
            Some(items) => ps@.len() == items.len() && forall|i: int|
                0 <= i < items.len() ==> pnpm_project_matches(#[trigger] ps@[i], items[i]),
            None => if arrays_only {
                ps@.len() == 0
            } else {
                ps@.len() == 1 && pnpm_project_matches(ps@[0], text@)
            },
        },
{
    if !json_is_valid(text) {
        return None;
    }
    let base = path0();
    let mut out: Vec<PnpmProject> = Vec::new();
    match json_item_texts_at(text, &base) {
        Some(items) => {
            let mut i: usize = 0;
            while i < items.len()
                invariant
                    i <= items@.len(),
                    out@.len() == i,
                    forall|k: int| 0 <= k < i ==> pnpm_project_matches(#[trigger] out@[k], items@[k]@),
                decreases items@.len() - i,
            {
                out.push(pnpm_project_at(items[i].as_str()));
                i = i + 1;
            }
            assert(strs(items@).len() == items@.len());
            assert forall|k: int| 0 <= k < items@.len() implies strs(items@)[k] == items@[k]@ by {}
        },
        None => {
            if !arrays_only {
                out.push(pnpm_project_at(text));
            }
        },
    }
    Some(out)
}

/// The dependency tables of the JSON printed by `pnpm list`, read from the
/// document itself (see `pnpm_project_matches`); `None` when the text is no
/// JSON.
pub fn pnpm_document_project(text: &str) -> (r: Option<PnpmProject>)
    ensures
        r is Some <==> json_valid(text@),
        r matches Some(p) ==> pnpm_project_matches(p, text@),
{
    if !json_is_valid(text) {
        return None;
    }
    Some(pnpm_project_at(text))
}

/// The `from` of each of the `dependents` of the JSON printed by
/// `pnpm why --json`, where a string; none without such an array.
pub fn pnpm_why_froms(text: &str) -> (r: Vec<Option<String>>)
    ensures
        opt_views(r@) == match json_item_strings(text@, seq!["dependents"@], "from"@) {
            Some(froms) => froms,
            None => seq![],
        },
{
    match json_item_strings_at(text, &path1("dependents"), "from") {
        Some(froms) => {
            assert(opt_views(froms@) =~= opt_strings(froms@));
            froms
        },
        None => {
            let v: Vec<Option<String>> = Vec::new();
            assert(opt_views(v@) =~= Seq::<Option<Seq<char>>>::empty());
            v
        },
    }
}

/// The dependencies a `package.json` lists under `dependencies`, a
/// requirement that is not a string read as `*` (see
/// `requirement_entries`); `None` when the text is no JSON.
pub fn dependency_requirements(package_json: &str) -> (r: Option<Vec<(String, String)>>)
    ensures
        r is Some <==> json_valid(package_json@),
        r matches Some(deps) ==> entry_views(deps@) == match json_string_entries(package_json@, seq!["dependencies"@]) {
            Some(es) => requirement_entries(es),
            None => seq![],
        },
{
    if !json_is_valid(package_json) {
        return None;
    }
    let mut deps: Vec<(String, String)> = Vec::new();
    match json_string_entries_at(package_json, &path1("dependencies")) {
        Some(es) => {
            let ghost ev = entry_strings(es@);
            let mut i: usize = 0;
            while i < es.len()
                invariant
                    i <= es@.len(),
                    ev == entry_strings(es@),
                    entry_views(deps@) == requirement_entries(ev).take(i as int),
                decreases es@.len() - i,
            {
                let ghost before = entry_views(deps@);
                let n = owned(es[i].0.as_str());
                let v = match &es[i].1 {
                    Some(v) => owned(v.as_str()),
                    None => owned("*"),
                };
                assert(requirement_entries(ev)[i as int] == (n@, v@));
                deps.push((n, v));
                assert(entry_views(deps@) =~= before.push(requirement_entries(ev)[i as int]));
                assert(requirement_entries(ev).take(i + 1) =~= requirement_entries(ev).take(i as int).push(
                    requirement_entries(ev)[i as int],
                ));
                i = i + 1;
            }
            assert(requirement_entries(ev).take(ev.len() as int) =~= requirement_entries(ev));
        },
        None => {
            assert(entry_views(deps@) =~= Seq::<Dep>::empty());
        },
    }
    Some(deps)
}

/// The package of an optional answer, as a list of none or one.
pub open spec fn listed_if(o: Option<Dep>) -> Seq<Dep> {
    match o {
        Some(d) => seq![d],
        None => seq![],
    }
}

/// Appends the package of an optional answer.
fn push_found(out: &mut Vec<(String, String)>, o: Option<(String, String)>)
    ensures
        entry_views(final(out)@) == entry_views(old(out)@) + listed_if(
            match o {
                Some(p) => Some((p.0@, p.1@)),
                None => None,
            },
        ),
{
    let ghost before = entry_views(out@);
    match o {
        Some(p) => {
            let ghost pv = (p.0@, p.1@);
            out.push(p);
            assert(entry_views(out@) =~= before + seq![pv]);
        },
        None => {
            assert(entry_views(out@) =~= before + Seq::<Dep>::empty());
        },
    }
}

/// The view of an optional package.
pub open spec fn found_view(o: Option<(String, String)>) -> Option<Dep> {
    match o {
        Some(p) => Some((p.0@, p.1@)),
        None => None,
    }
}

/// One line of `pnpm-lock.yaml` read in full, with whether the `packages:`
/// section is being read: `packages:` opens the section and any other
/// unindented `...:` line closes it; in it, a `/key:` line gives the
/// package of its key; anywhere, a line holding `@` and `:` and not a
/// comment gives the package of `lockfile_line`.
pub open spec fn full_lock_step(in_packages: bool, line: Seq<char>) -> (bool, Seq<Dep>) {
    let t = trim(line);
    if t == "packages:"@ {
        (true, seq![])
    } else if t.len() > 0 && !starts_with(t, " "@) && ends_with(t, ":"@) && in_packages {
        (false, seq![])
    } else {
        let keyed = if in_packages && starts_with(t, "/"@) && contains(t, ":"@) && ends_with(t, ":"@) {
            listed_if(crate::languages::node::pnpm_package_entry(t.skip(1).drop_last()))
        } else {
            seq![]
        };
        let named = if contains(t, "@"@) && contains(t, ":"@) && !starts_with(t, "#"@) {
            listed_if(crate::languages::node::lockfile_line(t))
        } else {
            seq![]
        };
        (in_packages, keyed + named)
    }
}

/// Whether the `packages:` section is being read after some lines, and the
/// packages found, in order (see `full_lock_step`).
pub open spec fn full_lock_scan(ls: Seq<Seq<char>>) -> (bool, Seq<Dep>)
    decreases ls.len(),
{
    if ls.len() == 0 {
        (false, seq![])
    } else {
        let prev = full_lock_scan(ls.drop_last());
        let step = full_lock_step(prev.0, ls.last());
        (step.0, prev.1 + step.1)
    }
}

/// The packages of a `pnpm-lock.yaml` read in full (see `full_lock_scan`).
pub fn parse_pnpm_lockfile_comprehensive(content: &str) -> (r: Vec<(String, String)>)
    ensures
        entry_views(r@) == full_lock_scan(lines(content@)).1,
{
    let cc = to_chars(content);
    let ls = lines_exec(cc.as_slice());
    let ghost lv = seqs(ls@);
    let mut in_packages = false;
    let mut out: Vec<(String, String)> = Vec::new();
    let mut i: usize = 0;
    while i < ls.len()
        invariant
            i <= ls@.len(),
            lv == seqs(ls@),
            full_lock_scan(lv.take(i as int)) == (in_packages, entry_views(out@)),
        decreases ls@.len() - i,
    {
        assert(lv.take(i + 1).drop_last() =~= lv.take(i as int));
        assert(lv[i as int] == ls@[i as int]@);
        let t = trimmed(ls[i].as_slice());
        proof {
            reveal_strlit("packages:");
        }
        if crate::text::eq_str(t.as_slice(), "packages:") {
            in_packages = true;
        } else if t.len() > 0 && !starts_with_str(t.as_slice(), " ") && ends_with_str(t.as_slice(), ":")
            && in_packages {
            in_packages = false;
        } else {
            let ghost before = entry_views(out@);
            if in_packages && starts_with_str(t.as_slice(), "/") && contains_str(t.as_slice(), ":")
                && ends_with_str(t.as_slice(), ":") {
                proof {
                    reveal_strlit("/");
                    reveal_strlit(":");
                }
                assert(t@.subrange(0, 1)[0] == t@[0]);
                assert(t@[0] == '/');
                assert(t@.subrange(t@.len() - 1, t@.len() as int)[0] == t@[t@.len() - 1]);
                assert(t@[t@.len() - 1] == ':');
                let info = slice_of(t.as_slice(), 1, t.len() - 1);
                assert(info@ =~= t@.skip(1).drop_last());
                let s = from_chars(info.as_slice());
                push_found(&mut out, crate::languages::node::parse_pnpm_package_entry(s.as_str()));
            } else {
                assert(entry_views(out@) =~= before + Seq::<Dep>::empty());
            }
            let ghost mid = entry_views(out@);
            if contains_str(t.as_slice(), "@") && contains_str(t.as_slice(), ":") && !starts_with_str(
                t.as_slice(),
                "#",
            ) {
                let s = from_chars(t.as_slice());
                push_found(&mut out, crate::languages::node::extract_package_from_lockfile_line(s.as_str()));
            } else {
                assert(entry_views(out@) =~= mid + Seq::<Dep>::empty());
            }
            proof {
                let st = full_lock_step(in_packages, lv[i as int]);
                assert(entry_views(out@) =~= before + st.1);
            }
        }
        i = i + 1;
    }
    assert(lv.take(lv.len() as int) =~= lv);
    out
}

/// The view of optional characters.
pub open spec fn opt_chars(o: Option<Vec<char>>) -> Option<Seq<char>> {
    match o {
        Some(c) => Some(c@),
        None => None,
    }
}

/// The sections of `pnpm-lock.yaml` that list dependencies by name.
pub open spec fn dependency_section(s: Seq<char>) -> bool {
    s == "dependencies"@ || s == "devDependencies"@ || s == "optionalDependencies"@
}

/// One line of `pnpm-lock.yaml` read by section: an unindented `name:` line
/// opens the section `name`; in `packages`, a `/key:` line gives the
/// package of its key; in a dependency section, a `name: version` line gives
/// the name at the cleaned version; elsewhere, a line holding `@` and `:`
/// and not a comment gives what precedes its first `:`, split at its last
/// `@`, when the version starts with a digit.
pub open spec fn section_step(section: Option<Seq<char>>, line: Seq<char>) -> (Option<Seq<char>>, Seq<Dep>) {
    let t = trim(line);
    if ends_with(t, ":"@) && !starts_with(t, " "@) {
        (Some(trim_end_char(t, ':')), seq![])
    } else if section == Some("packages"@) {
        if starts_with(t, "/"@) && contains(t, ":"@) && ends_with(t, ":"@) {
            (section, listed_if(crate::languages::node::pnpm_package_entry(t.skip(1).drop_last())))
        } else {
            (section, seq![])
        }
    } else if section matches Some(name) && dependency_section(name) {
        match find(t, ":"@) {
            Some(c) => {
                let name = trim(t.take(c));
                let spec = trim(t.skip(c + 1));
                if name.len() > 0 && spec.len() > 0 {
                    (section, seq![(name, clean_version(spec))])
                } else {
                    (section, seq![])
                }
            },
            None => (section, seq![]),
        }
    } else if contains(t, "@"@) && contains(t, ":"@) && !starts_with(t, "#"@) {
        match split_once(t, ":"@) {
            Some(p) => match rsplit_at(trim(p.0), '@') {
                Some(d) => if crate::languages::node::starts_with_digit(d.1) {
                    (section, seq![d])
                } else {
                    (section, seq![])
                },
                None => (section, seq![]),
            },
            None => (section, seq![]),
        }
    } else {
        (section, seq![])
    }
}

/// The section being read after some lines of `pnpm-lock.yaml`, and the
/// packages found, in order (see `section_step`).
pub open spec fn section_scan(ls: Seq<Seq<char>>) -> (Option<Seq<char>>, Seq<Dep>)
    decreases ls.len(),
{
    if ls.len() == 0 {
        (None, seq![])
    } else {
        let prev = section_scan(ls.drop_last());
        let step = section_step(prev.0, ls.last());
        (step.0, prev.1 + step.1)
    }
}

/// The packages of a `pnpm-lock.yaml` read by section (see `section_scan`).
pub fn parse_pnpm_lockfile_enhanced(content: &str) -> (r: Vec<(String, String)>)
    ensures
        entry_views(r@) == section_scan(lines(content@)).1,
{
    let cc = to_chars(content);
    let ls = lines_exec(cc.as_slice());
    let ghost lv = seqs(ls@);
    let mut section: Option<Vec<char>> = None;
    let mut out: Vec<(String, String)> = Vec::new();
    let mut i: usize = 0;
    while i < ls.len()
        invariant
            i <= ls@.len(),
            lv == seqs(ls@),
            section_scan(lv.take(i as int)) == (
                match section {
                    Some(c) => Some(c@),
                    None => None::<Seq<char>>,
                },
                entry_views(out@),
            ),
        decreases ls@.len() - i,
    {
        assert(lv.take(i + 1).drop_last() =~= lv.take(i as int));
        assert(lv[i as int] == ls@[i as int]@);
        let ghost sv = opt_chars(section);
        let ghost before = entry_views(out@);
        let t = trimmed(ls[i].as_slice());
        if ends_with_str(t.as_slice(), ":") && !starts_with_str(t.as_slice(), " ") {
            section = Some(trim_end_char_exec(t.as_slice(), ':'));
            assert(entry_views(out@) =~= before + Seq::<Dep>::empty());
        } else {
            let (is_packages, is_deps) = match &section {
                Some(c) => (
                    crate::text::eq_str(c.as_slice(), "packages"),
                    crate::text::eq_str(c.as_slice(), "dependencies") || crate::text::eq_str(
                        c.as_slice(),
                        "devDependencies",
                    ) || crate::text::eq_str(c.as_slice(), "optionalDependencies"),
                ),
                None => (false, false),
            };
            assert(is_packages == (sv == Some("packages"@)));
            assert(is_deps == (sv matches Some(name) && dependency_section(name)));
            if is_packages {
                if starts_with_str(t.as_slice(), "/") && contains_str(t.as_slice(), ":") && ends_with_str(
                    t.as_slice(),
                    ":",
                ) {
                    proof {
                        reveal_strlit("/");
                        reveal_strlit(":");
                    }
                    assert(t@.subrange(0, 1)[0] == t@[0]);
                assert(t@[0] == '/');
                assert(t@.subrange(t@.len() - 1, t@.len() as int)[0] == t@[t@.len() - 1]);
                assert(t@[t@.len() - 1] == ':');
                let info = slice_of(t.as_slice(), 1, t.len() - 1);
                    assert(info@ =~= t@.skip(1).drop_last());
                    let s = from_chars(info.as_slice());
                    push_found(&mut out, crate::languages::node::parse_pnpm_package_entry(s.as_str()));
                } else {
                    assert(entry_views(out@) =~= before + Seq::<Dep>::empty());
                }
            } else if is_deps {
                let colon = to_chars(":");
                match find_exec(t.as_slice(), colon.as_slice()) {
                    Some(c) => {
                        proof {
                            crate::text::lemma_find(t@, colon@);
                            reveal_strlit(":");
                        }
                        assert(c < t.len());
                        let n0 = slice_of(t.as_slice(), 0, c);
                        let v0 = slice_of(t.as_slice(), c + 1, t.len());
                        let name = trimmed(n0.as_slice());
                        let spec = trimmed(v0.as_slice());
                        if name.len() > 0 && spec.len() > 0 {
                            let sp = from_chars(spec.as_slice());
                            let cleaned = clean_version_string(sp.as_str());
                            push_found(&mut out, Some((from_chars(name.as_slice()), cleaned)));
                        } else {
                            assert(entry_views(out@) =~= before + Seq::<Dep>::empty());
                        }
                    },
                    None => {
                        assert(entry_views(out@) =~= before + Seq::<Dep>::empty());
                    },
                }
            } else if contains_str(t.as_slice(), "@") && contains_str(t.as_slice(), ":") && !starts_with_str(
                t.as_slice(),
                "#",
            ) {
                match split_once_exec(t.as_slice(), ":") {
                    Some((p0, _)) => {
                        let pt = trimmed(p0.as_slice());
                        match rsplit_at_exec(pt.as_slice(), '@') {
                            Some(d) => {
                                let dv = to_chars(d.1.as_str());
                                if crate::languages::node::starts_with_digit_exec(dv.as_slice()) {
                                    push_found(&mut out, Some(d));
                                } else {
                                    assert(entry_views(out@) =~= before + Seq::<Dep>::empty());
                                }
                            },
                            None => {
                                assert(entry_views(out@) =~= before + Seq::<Dep>::empty());
                            },
                        }
                    },
                    None => {
                        assert(entry_views(out@) =~= before + Seq::<Dep>::empty());
                    },
                }
            } else {
                assert(entry_views(out@) =~= before + Seq::<Dep>::empty());
            }
        }
        proof {
            let st = section_step(sv, lv[i as int]);
            assert(entry_views(out@) =~= before + st.1);
        }
        i = i + 1;
    }
    assert(lv.take(lv.len() as int) =~= lv);
    out
}

/// A frame of a registry walk: the dependencies of a package (or of the
/// project), the index of the next one to consider, and their depth.
pub type FrameView = (Seq<Dep>, nat, nat);

/// The state of a walk over the npm registry: the versions found, the
/// packages whose dependencies are being resolved (innermost last), the
/// frames (innermost last), and the package whose metadata is awaited.
pub struct RegistryWalkView {
    pub found: Map<Seq<char>, Seq<char>>,
    pub active: Seq<Seq<char>>,
    pub frames: Seq<FrameView>,
    pub awaiting: Option<Dep>,
}

/// What remains to be considered in the frames, each frame counting one
/// besides its dependencies.
pub open spec fn work(fs: Seq<FrameView>) -> nat
    decreases fs.len(),
{
    if fs.len() == 0 {
        0
    } else {
        work(fs.drop_last()) + (if fs.last().1 <= fs.last().0.len() {
            (fs.last().0.len() - fs.last().1) as nat
        } else {
            0nat
        }) + 1
    }
}

/// The walk with its innermost frame done: the frame is dropped, and so is
/// the package it belongs to (the project's own frame belongs to none).
pub open spec fn frame_done(v: RegistryWalkView) -> RegistryWalkView {
    RegistryWalkView {
        found: v.found,
        active: if v.frames.len() > 1 {
            v.active.drop_last()
        } else {
            v.active
        },
        frames: v.frames.drop_last(),
        awaiting: v.awaiting,
    }
}

/// The walk past the next dependency of its innermost frame.
pub open spec fn stepped(v: RegistryWalkView) -> RegistryWalkView {
    let top = v.frames.last();
    RegistryWalkView {
        found: v.found,
        active: v.active,
        frames: v.frames.update(v.frames.len() - 1, (top.0, top.1 + 1, top.2)),
        awaiting: v.awaiting,
    }
}

/// The next package to look up and the walk once it is asked for: the
/// innermost frame's next dependency whose name is neither found nor being
/// resolved (frames done on the way are dropped); the package becomes
/// active and awaited. `None` once no frame is left.
pub open spec fn advance(v: RegistryWalkView) -> (RegistryWalkView, Option<Dep>)
    decreases work(v.frames),
{
    if v.frames.len() == 0 {
        (v, None)
    } else {
        let top = v.frames.last();
        if top.1 >= top.0.len() {
            proof {
                assert(frame_done(v).frames =~= v.frames.drop_last());
            }
            advance(frame_done(v))
        } else {
            let d = top.0[top.1 as int];
            let s = stepped(v);
            proof {
                assert(s.frames.drop_last() =~= v.frames.drop_last());
            }
            if v.found.dom().contains(d.0) || v.active.contains(d.0) {
                advance(s)
            } else {
                (
                    RegistryWalkView {
                        found: s.found,
                        active: s.active.push(d.0),
                        frames: s.frames,
                        awaiting: Some(d),
                    },
                    Some(d),
                )
            }
        }
    }
}

/// The walk once the metadata of the awaited package is answered: found at
/// the version the registry gives, its dependencies then resolved one level
/// deeper while that is within `max_depth` (else it is done at once); or,
/// without metadata, found at its cleaned requirement and done.
pub open spec fn answered(v: RegistryWalkView, answer: Option<(Seq<char>, Seq<Dep>)>, max_depth: nat) -> RegistryWalkView {
    match v.awaiting {
        Some(d) => match answer {
            Some(a) => if v.frames.len() > 0 && v.frames.last().2 + 1 < max_depth {
                RegistryWalkView {
                    found: v.found.insert(d.0, a.0),
                    active: v.active,
                    frames: v.frames.push((a.1, 0nat, v.frames.last().2 + 1)),
                    awaiting: None,
                }
            } else {
                RegistryWalkView {
                    found: v.found.insert(d.0, a.0),
                    active: v.active.drop_last(),
                    frames: v.frames,
                    awaiting: None,
                }
            },
            None => RegistryWalkView {
                found: v.found.insert(d.0, clean_version(d.1)),
                active: v.active.drop_last(),
                frames: v.frames,
                awaiting: None,
            },
        },
        None => v,
    }
}

/// The views of frames.
pub open spec fn frame_views(fs: Seq<(Vec<(String, String)>, usize, u32)>) -> Seq<FrameView> {
    fs.map_values(|f: (Vec<(String, String)>, usize, u32)| (entry_views(f.0@), f.1 as nat, f.2 as nat))
}

/// A depth-first walk over the npm registry from a project's dependencies,
/// resolving each package's own dependencies up to a depth.
pub struct RegistryWalk {
    found: DependencyMap,
    active: Vec<String>,
    frames: Vec<(Vec<(String, String)>, usize, u32)>,
    awaiting: Option<(String, String)>,
    max_depth: u32,
}

impl RegistryWalk {
    /// Where the walk stands.
    pub closed spec fn view(&self) -> RegistryWalkView {
        RegistryWalkView {
            found: self.found@,
            active: crate::licenses::string_views(self.active@),
            frames: frame_views(self.frames@),
            awaiting: found_view(self.awaiting),
        }
    }

    /// The depth limit.
    pub closed spec fn limit(&self) -> nat {
        self.max_depth as nat
    }

    /// The frames are within their dependencies and the depth limit, and
    /// each frame but the project's belongs to an active package (as does
    /// the awaited one).
    pub closed spec fn wf(&self) -> bool {
        &&& self.found.wf()
        &&& match self.awaiting {
            Some(_) => self.active@.len() == self.frames@.len() && self.frames@.len() > 0,
            None => self.active@.len() + 1 == self.frames@.len() || (self.frames@.len() == 0
                && self.active@.len() == 0),
        }
        &&& forall|k: int|
            0 <= k < self.frames@.len() ==> (#[trigger] self.frames@[k]).1 <= self.frames@[k].0@.len()
                && self.frames@[k].2 < self.max_depth
    }

    /// A walk from the project's dependencies, within `max_depth` levels.
    pub fn new(dependencies: Vec<(String, String)>, max_depth: u32) -> (w: Self)
        ensures
            w.wf(),
            w.limit() == max_depth,
            w@ == (RegistryWalkView {
                found: Map::empty(),
                active: seq![],
                frames: if 0 < max_depth {
                    seq![(entry_views(dependencies@), 0nat, 0nat)]
                } else {
                    seq![]
                },
                awaiting: None,
            }),
    {
        let ghost dv = entry_views(dependencies@);
        let mut frames: Vec<(Vec<(String, String)>, usize, u32)> = Vec::new();
        if 0 < max_depth {
            frames.push((dependencies, 0, 0));
        }
        let w = RegistryWalk { found: DependencyMap::new(), active: Vec::new(), frames, awaiting: None, max_depth };
        assert(crate::licenses::string_views(w.active@) =~= Seq::<Seq<char>>::empty());
        if 0 < max_depth {
            assert(frame_views(w.frames@) =~= seq![(dv, 0nat, 0nat)]);
        } else {
            assert(frame_views(w.frames@) =~= Seq::<FrameView>::empty());
        }
        w
    }

    /// Whether `name` is being resolved.
    fn is_active(&self, name: &str) -> (r: bool)
        ensures
            r == crate::licenses::string_views(self.active@).contains(name@),
    {
        let ghost av = crate::licenses::string_views(self.active@);
        let nc = to_chars(name);
        let mut i: usize = 0;
        while i < self.active.len()
            invariant
                i <= self.active@.len(),
                av == crate::licenses::string_views(self.active@),
                nc@ == name@,
                forall|k: int| 0 <= k < i ==> av[k] != name@,
            decreases self.active@.len() - i,
        {
            if crate::text::eq_str(nc.as_slice(), self.active[i].as_str()) {
                assert(av[i as int] == name@);
                return true;
            }
            i = i + 1;
        }
        false
    }

    /// The next package to look up (see `advance`).
    pub fn next_request(&mut self) -> (r: Option<(String, String)>)
        requires
            old(self).wf(),
            old(self)@.awaiting is None,
        ensures
            final(self).wf(),
            final(self).limit() == old(self).limit(),
            (final(self)@, found_view(r)) == advance(old(self)@),
    {
        let ghost start = self@;
        loop
            invariant
                self.wf(),
                self.awaiting is None,
                self.max_depth == old(self).max_depth,
                start == old(self)@,
                advance(self@) == advance(start),
            decreases work(self@.frames),
        {
            let n = self.frames.len();
            if n == 0 {
                assert(self@.frames.len() == 0);
                assert(advance(self@) == (self@, None::<Dep>));
                return None;
            }
            let ghost v = self@;
            assert(v.frames.len() == n);
            assert(v.frames.last() == (entry_views(self.frames@[n - 1].0@), self.frames@[n - 1].1 as nat, self.frames@[n - 1].2 as nat));
            let mut top = self.frames.pop().unwrap();
            assert(self.frames@ =~= self.frames@);
            proof {
                assert(frame_views(self.frames@) =~= v.frames.drop_last());
            }
            if top.1 >= top.0.len() {
                if n > 1 {
                    let ghost before = self.active@;
                    self.active.pop();
                    assert(self.active@ =~= before.drop_last());
                }
                proof {
                    assert(crate::licenses::string_views(self.active@) =~= frame_done(v).active);
                    assert(self@ == frame_done(v));
                    assert(advance(v) == advance(frame_done(v)));
                    assert(work(self@.frames) < work(v.frames));
                }
            } else {
                let idx = top.1;
                let name = owned(top.0[idx].0.as_str());
                let spec = owned(top.0[idx].1.as_str());
                top.1 = idx + 1;
                self.frames.push(top);
                proof {
                    assert(frame_views(self.frames@) =~= stepped(v).frames);
                    assert(self@ == stepped(v));
                }
                let ghost d = v.frames.last().0[v.frames.last().1 as int];
                assert(d == (name@, spec@));
                proof {
                    assert(stepped(v).frames.drop_last() =~= v.frames.drop_last());
                    assert(work(self@.frames) < work(v.frames));
                }
                let seen = self.found.contains_key(name.as_str()) || self.is_active(name.as_str());
                assert(seen == (v.found.dom().contains(d.0) || v.active.contains(d.0)));
                if seen {
                    assert(advance(v) == advance(stepped(v)));
                }
                if !seen {
                    let ghost before = crate::licenses::string_views(self.active@);
                    self.active.push(owned(name.as_str()));
                    assert(crate::licenses::string_views(self.active@) =~= before.push(name@));
                    self.awaiting = Some((owned(name.as_str()), owned(spec.as_str())));
                    assert(self@ == (RegistryWalkView {
                        found: stepped(v).found,
                        active: stepped(v).active.push(d.0),
                        frames: stepped(v).frames,
                        awaiting: Some(d),
                    }));
                    return Some((name, spec));
                }
            }
        }
    }

    /// Records the metadata of the awaited package: its version and its own
    /// dependencies, or `None` when it could not be had (see `answered`).
    pub fn record(&mut self, metadata: Option<(String, Vec<(String, String)>)>)
        requires
            old(self).wf(),
        ensures
            final(self).wf(),
            final(self).limit() == old(self).limit(),
            final(self)@ == answered(
                old(self)@,
                match metadata {
                    Some(m) => Some((m.0@, entry_views(m.1@))),
                    None => None,
                },
                old(self).limit(),
            ),
    {
        let ghost v = self@;
        let awaited = self.awaiting.take();
        match awaited {
            Some((name, spec)) => match metadata {
                Some((version, deps)) => {
                    let ghost dv = entry_views(deps@);
                    self.found.insert(name, version);
                    let n = self.frames.len();
                    let deeper = if n > 0 {
                        let depth = self.frames[n - 1].2;
                        if depth + 1 < self.max_depth {
                            Some(depth + 1)
                        } else {
                            None
                        }
                    } else {
                        None
                    };
                    match deeper {
                        Some(d) => {
                            self.frames.push((deps, 0, d));
                            assert(frame_views(self.frames@) =~= v.frames.push((dv, 0nat, d as nat)));
                        },
                        None => {
                            let ghost before = self.active@;
                            self.active.pop();
                            assert(self.active@ =~= before.drop_last());
                            assert(crate::licenses::string_views(self.active@) =~= v.active.drop_last());
                        },
                    }
                },
                None => {
                    let cleaned = clean_version_string(spec.as_str());
                    self.found.insert(name, cleaned);
                    let ghost before = self.active@;
                    self.active.pop();
                    assert(self.active@ =~= before.drop_last());
                    assert(crate::licenses::string_views(self.active@) =~= v.active.drop_last());
                },
            },
            None => {},
        }
    }

    /// The versions found, each name once.
    pub fn finish(self) -> (r: Vec<(String, String)>)
        requires
            self.wf(),
        ensures
            map_of(entry_views(r@)) == self@.found,
            distinct_names(entry_views(r@)),
    {
        self.found.into_entries()
    }
}

/// A registry walk asks only for packages it has not found yet, and asking
/// changes nothing it has found; recording an answer finds the awaited
/// package and keeps what was found before.
pub proof fn law_registry_walk_asks_only_for_new_packages(
    v: RegistryWalkView,
    answer: Option<(Seq<char>, Seq<Dep>)>,
    max_depth: nat,
)
    ensures
        advance(v).0.found == v.found,
        advance(v).1 matches Some(d) ==> !v.found.dom().contains(d.0),
        v.awaiting matches Some(d) ==> answered(v, answer, max_depth).found.dom() == v.found.dom().insert(d.0),
    decreases work(v.frames),
{
    if v.frames.len() > 0 {
        let top = v.frames.last();
        if top.1 >= top.0.len() {
            assert(frame_done(v).frames =~= v.frames.drop_last());
            law_registry_walk_asks_only_for_new_packages(frame_done(v), answer, max_depth);
        } else {
            let d = top.0[top.1 as int];
            assert(stepped(v).frames.drop_last() =~= v.frames.drop_last());
            if v.found.dom().contains(d.0) || v.active.contains(d.0) {
                law_registry_walk_asks_only_for_new_packages(stepped(v), answer, max_depth);
            }
        }
    }
    if let Some(d) = v.awaiting {
        assert(answered(v, answer, max_depth).found.dom() =~= v.found.dom().insert(d.0));
    }
}

/// How many times `c` occurs in `s`.
pub open spec fn count_char(s: Seq<char>, c: char) -> nat
    decreases s.len(),
{
    if s.len() == 0 {
        0
    } else {
        count_char(s.drop_last(), c) + if s.last() == c {
            1nat
        } else {
            0nat
        }
    }
}

/// A store directory's package name without the scope it was filed under:
/// for a name starting with `@` and holding two `@`, an `@` followed by what
/// follows the second `@`.
pub open spec fn unfiled_name(name: Seq<char>) -> Seq<char> {
    if starts_with(name, "@"@) && count_char(name, '@') == 2 {
        match find(name.skip(1), "@"@) {
            Some(p) => "@"@ + name.skip(p + 2),
            None => name,
        }
    } else {
        name
    }
}

/// The package of a `.pnpm` store directory name: what precedes its first
/// `_`, split at the last `@`, the name as `unfiled_name` gives it.
pub open spec fn store_dir_package(dir: Seq<char>) -> Option<Dep> {
    match split_once(dir, "_"@) {
        Some(p) => match rsplit_at(p.0, '@') {
            Some(d) => Some((unfiled_name(d.0), d.1)),
            None => None,
        },
        None => None,
    }
}

/// How many times `c` occurs in `s`.
fn count_char_exec(s: &[char], c: char) -> (r: usize)
    ensures
        r == count_char(s@, c),
{
    let mut n: usize = 0;
    let mut i: usize = 0;
    while i < s.len()
        invariant
            i <= s@.len(),
            n == count_char(s@.take(i as int), c),
            n <= i,
        decreases s@.len() - i,
    {
        assert(s@.take(i + 1).drop_last() =~= s@.take(i as int));
        if s[i] == c {
            n = n + 1;
        }
        i = i + 1;
    }
    assert(s@.take(s@.len() as int) =~= s@);
    n
}

/// The package of a `.pnpm` store directory name (see `store_dir_package`).
pub fn pnpm_store_dir_package(dir_name: &str) -> (r: Option<(String, String)>)
    ensures
        found_view(r) == store_dir_package(dir_name@),
{
    let dc = to_chars(dir_name);
    let (pv, _) = match split_once_exec(dc.as_slice(), "_") {
        Some(p) => p,
        None => {
            return None;
        },
    };
    let at = match rfind_exec(pv.as_slice(), '@') {
        Some(i) => {
            assert(i < pv.len());
            i
        },
        None => {
            return None;
        },
    };
    let name = slice_of(pv.as_slice(), 0, at);
    let version = slice_of(pv.as_slice(), at + 1, pv.len());
    assert(name@ == pv@.take(at as int));
    assert(version@ == pv@.skip(at + 1));
    let unfiled = if starts_with_str(name.as_slice(), "@") && count_char_exec(name.as_slice(), '@') == 2 {
        proof {
            reveal_strlit("@");
        }
        let tail = slice_of(name.as_slice(), 1, name.len());
        assert(tail@ == name@.skip(1));
        let at_chars = to_chars("@");
        match find_exec(tail.as_slice(), at_chars.as_slice()) {
            Some(p) => {
                proof {
                    crate::text::lemma_find(tail@, at_chars@);
                }
                assert(p + 2 <= name@.len());
                let rest = slice_of(name.as_slice(), p + 2, name.len());
                assert(rest@ == name@.skip(p + 2));
                let mut v = to_chars("@");
                crate::text::extend(&mut v, rest.as_slice());
                v
            },
            None => name,
        }
    } else {
        name
    };
    Some((from_chars(unfiled.as_slice()), from_chars(version.as_slice())))
}

/// The registry document to ask for the metadata of a package: that of the
/// cleaned requirement, or of the package when that is `latest` or empty.
pub open spec fn metadata_url(name: Seq<char>, requirement: Seq<char>) -> Seq<char> {
    registry_urls(name, clean_version(requirement))[0]
}

/// The registry document to ask for the metadata of a package (see
/// `metadata_url`).
pub fn registry_metadata_url(name: &str, requirement: &str) -> (r: String)
    ensures
        r@ == metadata_url(name@, requirement@),
{
    let clean = clean_version_string(requirement);
    let mut urls = npm_registry_urls(name, clean.as_str());
    assert(crate::licenses::string_views(urls@).len() > 0);
    assert(crate::licenses::string_views(urls@)[0] == urls@[0]@);
    urls.swap_remove(0)
}

/// The version a registry document is read at: its `dist-tags`.`latest`
/// (else `latest`) for a `latest` request, else the version requested.
pub open spec fn resolved_version(body: Seq<char>, requested: Seq<char>) -> Seq<char> {
    if requested == "latest"@ {
        match json_string(body, seq!["dist-tags"@, "latest"@]) {
            Some(v) => v,
            None => "latest"@,
        }
    } else {
        requested
    }
}

/// Where a registry document describes that version: under its
/// `versions` when listed there, else at its root.
pub open spec fn version_path(body: Seq<char>, version: Seq<char>) -> Seq<Seq<char>> {
    if json_has(body, seq!["versions"@, version]) {
        seq!["versions"@, version]
    } else {
        seq![]
    }
}

/// The dependencies an object of requirements lists, a requirement that is
/// not a string read as `*`.
pub open spec fn requirement_entries(es: Seq<(Seq<char>, Option<Seq<char>>)>) -> Seq<Dep> {
    es.map_values(
        |e: (Seq<char>, Option<Seq<char>>)|
            (
                e.0,
                match e.1 {
                    Some(v) => v,
                    None => "*"@,
                },
            ),
    )
}

/// What a registry document says of a package (for the recursive walk):
/// the version it is read at, and the `dependencies` listed for that
/// version; `None` without a JSON document.
pub open spec fn registry_answer(body: Option<Seq<char>>, requirement: Seq<char>) -> Option<(Seq<char>, Seq<Dep>)> {
    match body {
        Some(b) => if json_valid(b) {
            let v = resolved_version(b, clean_version(requirement));
            Some(
                (
                    v,
                    match json_string_entries(b, version_path(b, v).push("dependencies"@)) {
                        Some(es) => requirement_entries(es),
                        None => seq![],
                    },
                ),
            )
        } else {
            None
        },
        None => None,
    }
}

/// What a registry document (`None` when it could not be fetched) says of a
/// package for the recursive walk (see `registry_answer`).
pub fn parse_registry_metadata(body: Option<&str>, requirement: &str) -> (r: Option<(String, Vec<(String, String)>)>)
    ensures
        match r {
            Some(a) => registry_answer(crate::licenses::opt_str(body), requirement@) == Some((a.0@, entry_views(a.1@))),
            None => registry_answer(crate::licenses::opt_str(body), requirement@) is None,
        },
{
    let b = match body {
        Some(b) => b,
        None => {
            return None;
        },
    };
    if !crate::documents::json_is_valid(b) {
        return None;
    }
    let requested = clean_version_string(requirement);
    let rc = to_chars(requested.as_str());
    let version = if crate::text::eq_str(rc.as_slice(), "latest") {
        match json_string_at(b, &path2("dist-tags", "latest")) {
            Some(v) => v,
            None => owned("latest"),
        }
    } else {
        requested
    };
    let mut path = if crate::documents::json_has_at(b, &path2("versions", version.as_str())) {
        path2("versions", version.as_str())
    } else {
        crate::documents::path0()
    };
    let ghost base = crate::licenses::string_views(path@);
    assert(base == version_path(b@, version@));
    path.push(owned("dependencies"));
    assert(crate::licenses::string_views(path@) =~= base.push("dependencies"@));
    let mut deps: Vec<(String, String)> = Vec::new();
    match crate::documents::json_string_entries_at(b, &path) {
        Some(es) => {
            let ghost ev = crate::documents::entry_strings(es@);
            let mut i: usize = 0;
            while i < es.len()
                invariant
                    i <= es@.len(),
                    ev == crate::documents::entry_strings(es@),
                    entry_views(deps@) == requirement_entries(ev).take(i as int),
                decreases es@.len() - i,
            {
                let ghost before = entry_views(deps@);
                let n = owned(es[i].0.as_str());
                let v = match &es[i].1 {
                    Some(v) => owned(v.as_str()),
                    None => owned("*"),
                };
                assert(requirement_entries(ev)[i as int] == (n@, v@));
                deps.push((n, v));
                assert(entry_views(deps@) =~= before.push(requirement_entries(ev)[i as int]));
                assert(requirement_entries(ev).take(i + 1) =~= requirement_entries(ev).take(i as int).push(
                    requirement_entries(ev)[i as int],
                ));
                i = i + 1;
            }
            assert(requirement_entries(ev).take(ev.len() as int) =~= requirement_entries(ev));
        },
        None => {
            assert(entry_views(deps@) =~= Seq::<Dep>::empty());
        },
    }
    Some((version, deps))
}

/// The workspace patterns a `package.json` declares: the strings of its
/// `workspaces` array, or of the `packages` array of a `workspaces` object;
/// none otherwise.
pub open spec fn workspace_globs(content: Seq<char>) -> Seq<Seq<char>> {
    match json_string_items(content, seq!["workspaces"@]) {
        Some(items) => present_strings(items),
        None => match json_string_items(content, seq!["workspaces"@, "packages"@]) {
            Some(items) => present_strings(items),
            None => seq![],
        },
    }
}

/// The workspace patterns a `package.json` declares (see `workspace_globs`).
pub fn workspace_patterns(package_json: &str) -> (r: Vec<String>)
    ensures
        strs(r@) == workspace_globs(package_json@),
{
    proof {
        reveal_strlit("workspaces");
        reveal_strlit("packages");
    }
    match json_string_items_at(package_json, &path1("workspaces")) {
        Some(items) => present_strings_exec(items),
        None => match json_string_items_at(package_json, &path2("workspaces", "packages")) {
            Some(items) => present_strings_exec(items),
            None => {
                let v: Vec<String> = Vec::new();
                assert(strs(v@) =~= Seq::<Seq<char>>::empty());
                v
            },
        },
    }
}

} // verus!
