//! C++ dependencies: the manifests of vcpkg, Conan, CMake and Bazel, and
//! where the license of each kind of dependency is looked up.

use vstd::prelude::*;

use crate::config::FeludaConfig;
use crate::documents::{json_string, json_string_at, json_string_items, json_string_items_at, opt_strings, path1};
use crate::documents::{json_is_valid, json_item_shapes, json_item_shapes_at, json_valid, shape_views};
use crate::languages::c::{
    compile_failure, dep_views, group, group_exec, matches_view,
};
use crate::licenses::{
    License, LicenseInfo, OsiStatus, dependency_licenses, describes, opt_string, triple_views,
};
use crate::pattern::{
    Groups, groups_view, match_view, regex_all, regex_captures, regex_captures_iter, regex_first,
};
use crate::text::{
    eq_str, ends_with, ends_with_str, extend_str, find, find_exec, from_chars, lines, lines_exec,
    owned, seqs, slice_of, split, split_exec, starts_with, starts_with_str, to_chars, trim,
    trimmed, words, words_exec,
};

verus! {

/// The package manager a C++ project's dependencies come from.
#[derive(Debug, Clone, Copy, PartialEq, Eq, Structural)]
pub enum CppPackageManager {
    Vcpkg,
    Conan,
    CMake,
    Bazel,
    Unknown,
}

/// An entry of the `dependencies` array of a `vcpkg.json` manifest.
#[derive(Debug, Clone)]
pub enum VcpkgDependency {
    /// A bare package name.
    Name(String),
    /// An object, with its `name` and `version` fields when they are
    /// strings.
    Object { name: Option<String>, version: Option<String> },
    /// Anything else.
    Other,
}

/// The dependency a vcpkg entry names: a bare name at `latest`, or an
/// object's name at its version (`latest` without one); nothing otherwise.
pub open spec fn vcpkg_dep(e: VcpkgDependency) -> Option<(Seq<char>, Seq<char>)> {
    match e {
        VcpkgDependency::Name(n) => Some((n@, "latest"@)),
        VcpkgDependency::Object { name, version } => match name {
            Some(n) => Some(
                (
                    n@,
                    match version {
                        Some(v) => v@,
                        None => "latest"@,
                    },
                ),
            ),
            None => None,
        },
        VcpkgDependency::Other => None,
    }
}

/// The dependencies vcpkg entries name, in order.
pub open spec fn vcpkg_deps(es: Seq<VcpkgDependency>) -> Seq<(Seq<char>, Seq<char>)>
    decreases es.len(),
{
    if es.len() == 0 {
        Seq::empty()
    } else {
        let rest = vcpkg_deps(es.drop_last());
        match vcpkg_dep(es.last()) {
            Some(d) => rest.push(d),
            None => rest,
        }
    }
}

/// The dependencies of the `dependencies` array of a `vcpkg.json` manifest
/// (see `vcpkg_dep`).
pub fn vcpkg_dependencies(entries: &Vec<VcpkgDependency>) -> (r: Vec<(String, String)>)
    ensures
        dep_views(r@) == vcpkg_deps(entries@),
{
    let mut out: Vec<(String, String)> = Vec::new();
    let mut i: usize = 0;
    while i < entries.len()
        invariant
            i <= entries@.len(),
            dep_views(out@) == vcpkg_deps(entries@.take(i as int)),
        decreases entries@.len() - i,
    {
        assert(entries@.take(i + 1).drop_last() =~= entries@.take(i as int));
        let ghost before = dep_views(out@);
        let d: Option<(String, String)> = match &entries[i] {
            VcpkgDependency::Name(n) => Some((owned(n.as_str()), owned("latest"))),
            VcpkgDependency::Object { name, version } => match name {
                Some(n) => Some(
                    (
                        owned(n.as_str()),
                        match version {
                            Some(v) => owned(v.as_str()),
                            None => owned("latest"),
                        },
                    ),
                ),
                None => None,
            },
            VcpkgDependency::Other => None,
        };
        match d {
            Some(p) => {
                let ghost pv = (p.0@, p.1@);
                out.push(p);
                assert(dep_views(out@) =~= before.push(pv));
            },
            None => {},
        }
        i = i + 1;
    }
    assert(entries@.take(entries@.len() as int) =~= entries@);
    out
}

/// Whether `e` is the vcpkg entry the JSON item shape `s` describes (see
/// `json_item_shapes`): a bare name for a string, the `name` and `version`
/// of an object, anything else otherwise.
pub open spec fn vcpkg_entry_matches(
    e: VcpkgDependency,
    s: (Option<Seq<char>>, bool, Option<Seq<char>>, Option<Seq<char>>),
) -> bool {
    match s.0 {
        Some(n) => e matches VcpkgDependency::Name(m) && m@ == n,
        None => if s.1 {
            e matches VcpkgDependency::Object { name, version } && opt_string(name) == s.2 && opt_string(version)
                == s.3
        } else {
            e is Other
        },
    }
}

/// The entries of the `dependencies` array of the `vcpkg.json` text
/// `content` (none without such an array); `None` when the text is no
/// JSON.
pub fn vcpkg_entries_from_json(content: &str) -> (r: Option<Vec<VcpkgDependency>>)
    ensures
        r is Some <==> json_valid(content@),
        r matches Some(es) ==> match json_item_shapes(content@, seq!["dependencies"@], "name"@, "version"@) {
            Some(shapes) => es@.len() == shapes.len() && forall|i: int|
                0 <= i < shapes.len() ==> vcpkg_entry_matches(#[trigger] es@[i], shapes[i]),
            None => es@.len() == 0,
        },
{
    if !json_is_valid(content) {
        return None;
    }
    let mut out: Vec<VcpkgDependency> = Vec::new();
    match json_item_shapes_at(content, &path1("dependencies"), "name", "version") {
        Some(shapes) => {
            let ghost sv = shape_views(shapes@);
            let mut i: usize = 0;
            while i < shapes.len()
                invariant
                    i <= shapes@.len(),
                    sv == shape_views(shapes@),
                    out@.len() == i,
                    forall|k: int| 0 <= k < i ==> vcpkg_entry_matches(#[trigger] out@[k], sv[k]),
                decreases shapes@.len() - i,
            {
                let s = &shapes[i];
                let e = match &s.0 {
                    Some(n) => VcpkgDependency::Name(owned(n.as_str())),
                    None => if s.1 {
                        VcpkgDependency::Object {
                            name: match &s.2 {
                                Some(n) => Some(owned(n.as_str())),
                                None => None,
                            },
                            version: match &s.3 {
                                Some(v) => Some(owned(v.as_str())),
                                None => None,
                            },
                        }
                    } else {
                        VcpkgDependency::Other
                    },
                };
                assert(vcpkg_entry_matches(e, sv[i as int]));
                out.push(e);
                i = i + 1;
            }
        },
        None => {},
    }
    Some(out)
}

/// The dependency a Conan reference `name/version[@user/channel]` names:
/// what precedes the first `/`, and what follows it up to any `@`; nothing
/// without a `/`.
pub open spec fn conan_ref(dep: Seq<char>) -> Option<(Seq<char>, Seq<char>)> {
    match find(dep, "/"@) {
        Some(p) => Some(
            (dep.subrange(0, p), split(dep.subrange(p + 1, dep.len() as int), '@')[0]),
        ),
        None => None,
    }
}

/// The dependency of a Conan reference (see `conan_ref`).
fn conan_ref_exec(dep: &[char]) -> (r: Option<(String, String)>)
    ensures
        match conan_ref(dep@) {
            Some(d) => r matches Some(p) && p.0@ == d.0 && p.1@ == d.1,
            None => r is None,
        },
{
    match find_exec(dep, to_chars("/").as_slice()) {
        Some(p) => {
            proof {
                reveal_strlit("/");
                crate::text::lemma_find(dep@, "/"@);
            }
            assert(p < dep.len());
            let name = slice_of(dep, 0, p);
            let rest = slice_of(dep, p + 1, dep.len());
            let pieces = split_exec(rest.as_slice(), '@');
            proof {
                crate::text::lemma_split_acc_nonempty(rest@, '@', seq![]);
            }
            Some((from_chars(name.as_slice()), from_chars(pieces[0].as_slice())))
        },
        None => None,
    }
}

/// One line of a `conanfile.txt`, given whether the `[requires]` section is
/// open: the section after it, and the dependency it names. `[requires]`
/// opens the section, any other `[...]` header closes it, and inside it
/// each line that is not blank or a comment names a Conan reference.
pub open spec fn conan_line(in_requires: bool, line: Seq<char>) -> (bool, Option<(Seq<char>, Seq<char>)>) {
    let t = trim(line);
    if t == "[requires]"@ {
        (true, None)
    } else if starts_with(t, "["@) && ends_with(t, "]"@) {
        (false, None)
    } else if in_requires && t.len() > 0 && !starts_with(t, "#"@) {
        (in_requires, conan_ref(t))
    } else {
        (in_requires, None)
    }
}

/// The section state after some lines of a `conanfile.txt`, and the
/// dependencies they name.
pub open spec fn conan_scan(ls: Seq<Seq<char>>) -> (bool, Seq<(Seq<char>, Seq<char>)>)
    decreases ls.len(),
{
    if ls.len() == 0 {
        (false, Seq::empty())
    } else {
        let (open, deps) = conan_scan(ls.drop_last());
        let (next, d) = conan_line(open, ls.last());
        (
            next,
            match d {
                Some(x) => deps.push(x),
                None => deps,
            },
        )
    }
}

/// The dependencies of the `[requires]` section of a `conanfile.txt`.
pub fn parse_conanfile_txt(content: &str) -> (r: Vec<(String, String)>)
    ensures
        dep_views(r@) == conan_scan(lines(content@)).1,
{
    let cc = to_chars(content);
    let ls = lines_exec(cc.as_slice());
    let ghost lv = seqs(ls@);
    let mut open = false;
    let mut out: Vec<(String, String)> = Vec::new();
    let mut i: usize = 0;
    while i < ls.len()
        invariant
            i <= ls@.len(),
            lv == seqs(ls@),
            (open, dep_views(out@)) == conan_scan(lv.take(i as int)),
        decreases ls@.len() - i,
    {
        assert(lv.take(i + 1).drop_last() =~= lv.take(i as int));
        assert(lv[i as int] == ls@[i as int]@);
        let t = trimmed(ls[i].as_slice());
        if eq_str(t.as_slice(), "[requires]") {
            open = true;
        } else if starts_with_str(t.as_slice(), "[") && ends_with_str(t.as_slice(), "]") {
            open = false;
        } else if open && t.len() > 0 && !starts_with_str(t.as_slice(), "#") {
            match conan_ref_exec(t.as_slice()) {
                Some(p) => {
                    let ghost before = dep_views(out@);
                    let ghost pv = (p.0@, p.1@);
                    out.push(p);
                    assert(dep_views(out@) =~= before.push(pv));
                },
                None => {},
            }
        }
        i = i + 1;
    }
    assert(lv.take(lv.len() as int) =~= lv);
    out
}

/// The `requires = [...]` list of a `conanfile.py`.
pub open spec fn conan_requires_pattern() -> Seq<char> {
    r#"requires\s*=\s*\[(.*?)\]"#@
}

/// A double-quoted string.
pub open spec fn quoted_pattern() -> Seq<char> {
    r#""([^"]+)""#@
}

/// The Conan references quoted in a requirement list, in order.
pub open spec fn conan_refs(ms: Seq<Groups>) -> Seq<(Seq<char>, Seq<char>)>
    decreases ms.len(),
{
    if ms.len() == 0 {
        Seq::empty()
    } else {
        let rest = conan_refs(ms.drop_last());
        match group(ms.last(), 1) {
            Some(s) => match conan_ref(s) {
                Some(d) => rest.push(d),
                None => rest,
            },
            None => rest,
        }
    }
}

/// The Conan references of quoted-string matches (see `conan_refs`).
pub fn conan_refs_from(ms: &Vec<Vec<Option<String>>>) -> (r: Vec<(String, String)>)
    ensures
        dep_views(r@) == conan_refs(matches_view(ms@)),
{
    let ghost mv = matches_view(ms@);
    let mut out: Vec<(String, String)> = Vec::new();
    let mut i: usize = 0;
    while i < ms.len()
        invariant
            i <= ms@.len(),
            mv == matches_view(ms@),
            dep_views(out@) == conan_refs(mv.take(i as int)),
        decreases ms@.len() - i,
    {
        assert(mv.take(i + 1).drop_last() =~= mv.take(i as int));
        assert(mv[i as int] == groups_view(ms@[i as int]));
        match group_exec(&ms[i], 1) {
            Some(s) => match conan_ref_exec(s.as_slice()) {
                Some(p) => {
                    let ghost before = dep_views(out@);
                    let ghost pv = (p.0@, p.1@);
                    out.push(p);
                    assert(dep_views(out@) =~= before.push(pv));
                },
                None => {},
            },
            None => {},
        }
        i = i + 1;
    }
    assert(mv.take(mv.len() as int) =~= mv);
    out
}

/// `prefix` + `m` as a `String`.
fn prefixed(prefix: &str, m: &str) -> (r: String)
    ensures
        r@ == prefix@ + m@,
{
    let mut v = to_chars(prefix);
    extend_str(&mut v, m);
    from_chars(v.as_slice())
}

/// The dependencies of a `conanfile.py`: the Conan references quoted in its
/// first `requires = [...]` list.
pub fn parse_conanfile_py(content: &str) -> (r: Result<Vec<(String, String)>, String>)
    ensures
        match compile_failure("Failed to compile requires regex: "@, conan_requires_pattern()) {
            Some(e) => r matches Err(m) && m@ == e,
            None => match regex_captures(conan_requires_pattern(), content@) {
                Some(g) => match group(g, 1) {
                    Some(list) => match compile_failure(
                        "Failed to compile dependency regex: "@,
                        quoted_pattern(),
                    ) {
                        Some(e) => r matches Err(m) && m@ == e,
                        None => r matches Ok(v) && dep_views(v@) == conan_refs(
                            regex_captures_iter(quoted_pattern(), list),
                        ),
                    },
                    None => r matches Ok(v) && v@.len() == 0,
                },
                None => r matches Ok(v) && v@.len() == 0,
            },
        },
{
    match regex_first(r#"requires\s*=\s*\[(.*?)\]"#, content) {
        Err(e) => Err(prefixed("Failed to compile requires regex: ", e.as_str())),
        Ok(None) => Ok(Vec::new()),
        Ok(Some(g)) => match group_exec(&g, 1) {
            None => Ok(Vec::new()),
            Some(list) => {
                let ls = from_chars(list.as_slice());
                match regex_all(r#""([^"]+)""#, ls.as_str()) {
                    Err(e) => Err(prefixed("Failed to compile dependency regex: ", e.as_str())),
                    Ok(ms) => Ok(conan_refs_from(&ms)),
                }
            },
        },
    }
}

/// `FetchContent_Declare` calls in a `CMakeLists.txt`.
pub open spec fn fetchcontent_pattern() -> Seq<char> {
    r"FetchContent_Declare\s*\(\s*(\w+)"@
}

/// `find_package` calls in a `CMakeLists.txt`.
pub open spec fn find_package_pattern() -> Seq<char> {
    r"find_package\s*\(\s*(\w+)(?:\s+([^)]+))?\)"@
}

/// The packages of group 1 of each match, at a fixed version.
pub open spec fn packages_at(ms: Seq<Groups>, version: Seq<char>) -> Seq<(Seq<char>, Seq<char>)>
    decreases ms.len(),
{
    if ms.len() == 0 {
        Seq::empty()
    } else {
        let rest = packages_at(ms.drop_last(), version);
        match group(ms.last(), 1) {
            Some(n) => rest.push((n, version)),
            None => rest,
        }
    }
}

/// The packages of group 1 of each match, at a fixed version.
pub fn packages_at_from(ms: &Vec<Vec<Option<String>>>, version: &str) -> (r: Vec<(String, String)>)
    ensures
        dep_views(r@) == packages_at(matches_view(ms@), version@),
{
    let ghost mv = matches_view(ms@);
    let mut out: Vec<(String, String)> = Vec::new();
    let mut i: usize = 0;
    while i < ms.len()
        invariant
            i <= ms@.len(),
            mv == matches_view(ms@),
            dep_views(out@) == packages_at(mv.take(i as int), version@),
        decreases ms@.len() - i,
    {
        assert(mv.take(i + 1).drop_last() =~= mv.take(i as int));
        assert(mv[i as int] == groups_view(ms@[i as int]));
        match group_exec(&ms[i], 1) {
            Some(n) => {
                let ghost before = dep_views(out@);
                out.push((from_chars(n.as_slice()), owned(version)));
                assert(dep_views(out@) =~= before.push((n@, version@)));
            },
            None => {},
        }
        i = i + 1;
    }
    assert(mv.take(mv.len() as int) =~= mv);
    out
}

/// The version a `find_package` call asks for: the first word of its
/// arguments, unless they start with `REQUIRED` or `COMPONENTS` or there
/// are none; else the system version.
pub open spec fn find_package_version(args: Option<Seq<char>>) -> Seq<char> {
    match args {
        Some(a) => {
            let t = trim(a);
            if starts_with(t, "REQUIRED"@) || starts_with(t, "COMPONENTS"@) || words(t).len() == 0 {
                "system"@
            } else {
                words(t)[0]
            }
        },
        None => "system"@,
    }
}

/// The packages of `find_package` matches, with their versions.
pub open spec fn found_packages(ms: Seq<Groups>) -> Seq<(Seq<char>, Seq<char>)>
    decreases ms.len(),
{
    if ms.len() == 0 {
        Seq::empty()
    } else {
        let rest = found_packages(ms.drop_last());
        match group(ms.last(), 1) {
            Some(n) => rest.push((n, find_package_version(group(ms.last(), 2)))),
            None => rest,
        }
    }
}

/// The packages of `find_package` matches (see `found_packages`).
pub fn found_packages_from(ms: &Vec<Vec<Option<String>>>) -> (r: Vec<(String, String)>)
    ensures
        dep_views(r@) == found_packages(matches_view(ms@)),
{
    let ghost mv = matches_view(ms@);
    let mut out: Vec<(String, String)> = Vec::new();
    let mut i: usize = 0;
    while i < ms.len()
        invariant
            i <= ms@.len(),
            mv == matches_view(ms@),
            dep_views(out@) == found_packages(mv.take(i as int)),
        decreases ms@.len() - i,
    {
        assert(mv.take(i + 1).drop_last() =~= mv.take(i as int));
        assert(mv[i as int] == groups_view(ms@[i as int]));
        match group_exec(&ms[i], 1) {
            Some(n) => {
                let version: Vec<char> = match group_exec(&ms[i], 2) {
                    Some(a) => {
                        let t = trimmed(a.as_slice());
                        if starts_with_str(t.as_slice(), "REQUIRED") || starts_with_str(t.as_slice(), "COMPONENTS") {
                            to_chars("system")
                        } else {
                            let ws = words_exec(t.as_slice());
                            if ws.len() == 0 {
                                to_chars("system")
                            } else {
                                assert(seqs(ws@)[0] == ws@[0]@);
                                let w = slice_of(ws[0].as_slice(), 0, ws[0].len());
                                assert(w@ =~= ws@[0]@);
                                w
                            }
                        }
                    },
                    None => to_chars("system"),
                };
                assert(version@ == find_package_version(group(mv[i as int], 2)));
                let ghost before = dep_views(out@);
                out.push((from_chars(n.as_slice()), from_chars(version.as_slice())));
                assert(dep_views(out@) =~= before.push((n@, version@)));
            },
            None => {},
        }
        i = i + 1;
    }
    assert(mv.take(mv.len() as int) =~= mv);
    out
}

/// The dependencies of a `CMakeLists.txt`: the `FetchContent_Declare`d
/// ones at `git`, then the `find_package`d ones with their versions.
pub fn parse_cmake_content(content: &str) -> (r: Result<Vec<(String, String)>, String>)
    ensures
        match compile_failure("Failed to compile FetchContent regex: "@, fetchcontent_pattern()) {
            Some(e) => r matches Err(m) && m@ == e,
            None => match compile_failure(
                "Failed to compile find_package regex: "@,
                find_package_pattern(),
            ) {
                Some(e) => r matches Err(m) && m@ == e,
                None => r matches Ok(v) && dep_views(v@) == packages_at(
                    regex_captures_iter(fetchcontent_pattern(), content@),
                    "git"@,
                ) + found_packages(regex_captures_iter(find_package_pattern(), content@)),
            },
        },
{
    let fetched = match regex_all(r"FetchContent_Declare\s*\(\s*(\w+)", content) {
        Err(e) => {
            return Err(prefixed("Failed to compile FetchContent regex: ", e.as_str()));
        },
        Ok(ms) => packages_at_from(&ms, "git"),
    };
    match regex_all(r"find_package\s*\(\s*(\w+)(?:\s+([^)]+))?\)", content) {
        Err(e) => Err(prefixed("Failed to compile find_package regex: ", e.as_str())),
        Ok(ms) => {
            let mut out = fetched;
            let ghost a = dep_views(out@);
            let mut more = found_packages_from(&ms);
            let ghost b = dep_views(more@);
            out.append(&mut more);
            assert(dep_views(out@) =~= a + b);
            Ok(out)
        },
    }
}

/// `bazel_dep` declarations in a `MODULE.bazel`.
pub open spec fn bazel_dep_pattern() -> Seq<char> {
    r#"bazel_dep\s*\(\s*name\s*=\s*"([^"]+)"\s*,\s*version\s*=\s*"([^"]+)""#@
}

/// `http_archive` declarations in a `WORKSPACE`.
pub open spec fn http_archive_pattern() -> Seq<char> {
    r#"http_archive\s*\(\s*name\s*=\s*"([^"]+)""#@
}

/// The name and version pairs of groups 1 and 2 of each match.
pub open spec fn name_version_pairs(ms: Seq<Groups>) -> Seq<(Seq<char>, Seq<char>)>
    decreases ms.len(),
{
    if ms.len() == 0 {
        Seq::empty()
    } else {
        let rest = name_version_pairs(ms.drop_last());
        match (group(ms.last(), 1), group(ms.last(), 2)) {
            (Some(n), Some(v)) => rest.push((n, v)),
            _ => rest,
        }
    }
}

/// The name and version pairs of groups 1 and 2 of each match.
pub fn name_version_pairs_from(ms: &Vec<Vec<Option<String>>>) -> (r: Vec<(String, String)>)
    ensures
        dep_views(r@) == name_version_pairs(matches_view(ms@)),
{
    let ghost mv = matches_view(ms@);
    let mut out: Vec<(String, String)> = Vec::new();
    let mut i: usize = 0;
    while i < ms.len()
        invariant
            i <= ms@.len(),
            mv == matches_view(ms@),
            dep_views(out@) == name_version_pairs(mv.take(i as int)),
        decreases ms@.len() - i,
    {
        assert(mv.take(i + 1).drop_last() =~= mv.take(i as int));
        assert(mv[i as int] == groups_view(ms@[i as int]));
        match (group_exec(&ms[i], 1), group_exec(&ms[i], 2)) {
            (Some(n), Some(v)) => {
                let ghost before = dep_views(out@);
                out.push((from_chars(n.as_slice()), from_chars(v.as_slice())));
                assert(dep_views(out@) =~= before.push((n@, v@)));
            },
            _ => {},
        }
        i = i + 1;
    }
    assert(mv.take(mv.len() as int) =~= mv);
    out
}

/// The dependencies of a `MODULE.bazel`: its `bazel_dep` names and
/// versions.
pub fn parse_module_bazel(content: &str) -> (r: Result<Vec<(String, String)>, String>)
    ensures
        match compile_failure("Failed to compile bazel_dep regex: "@, bazel_dep_pattern()) {
            Some(e) => r matches Err(m) && m@ == e,
            None => r matches Ok(v) && dep_views(v@) == name_version_pairs(
                regex_captures_iter(bazel_dep_pattern(), content@),
            ),
        },
{
    match regex_all(r#"bazel_dep\s*\(\s*name\s*=\s*"([^"]+)"\s*,\s*version\s*=\s*"([^"]+)""#, content) {
        Err(e) => Err(prefixed("Failed to compile bazel_dep regex: ", e.as_str())),
        Ok(ms) => Ok(name_version_pairs_from(&ms)),
    }
}

/// The dependencies of a `WORKSPACE`: its `http_archive` names, at
/// `archive`.
pub fn parse_workspace_bazel(content: &str) -> (r: Result<Vec<(String, String)>, String>)
    ensures
        match compile_failure("Failed to compile http_archive regex: "@, http_archive_pattern()) {
            Some(e) => r matches Err(m) && m@ == e,
            None => r matches Ok(v) && dep_views(v@) == packages_at(
                regex_captures_iter(http_archive_pattern(), content@),
                "archive"@,
            ),
        },
{
    match regex_all(r#"http_archive\s*\(\s*name\s*=\s*"([^"]+)""#, content) {
        Err(e) => Err(prefixed("Failed to compile http_archive regex: ", e.as_str())),
        Ok(ms) => Ok(packages_at_from(&ms, "archive")),
    }
}

/// Where the license of a C++ dependency is looked up, by its version.
#[derive(Debug, Clone, Copy, PartialEq, Eq, Structural)]
pub enum CppLicenseSource {
    /// The vcpkg registry (`latest` or `git`).
    Vcpkg,
    /// ConanCenter (a version starting with a digit).
    ConanCenter,
    /// The system's package information (`system`).
    System,
    /// Nowhere: the license is unknown.
    Unknown,
}

/// Where the license of a C++ dependency is looked up: `latest` and `git`
/// in the vcpkg registry, a version starting with a digit (or empty) in
/// ConanCenter, `system` in the system's package information.
pub open spec fn cpp_license_source(version: Seq<char>) -> CppLicenseSource {
    if version == "latest"@ || version == "git"@ {
        CppLicenseSource::Vcpkg
    } else if version.len() == 0 || ('0' <= version[0] && version[0] <= '9') {
        CppLicenseSource::ConanCenter
    } else if version == "system"@ {
        CppLicenseSource::System
    } else {
        CppLicenseSource::Unknown
    }
}

/// Where the license of a C++ dependency is looked up (see
/// `cpp_license_source`).
pub fn license_source_for(version: &str) -> (r: CppLicenseSource)
    ensures
        r == cpp_license_source(version@),
{
    let v = to_chars(version);
    if eq_str(v.as_slice(), "latest") || eq_str(v.as_slice(), "git") {
        CppLicenseSource::Vcpkg
    } else if v.len() == 0 || ('0' <= v[0] && v[0] <= '9') {
        CppLicenseSource::ConanCenter
    } else if eq_str(v.as_slice(), "system") {
        CppLicenseSource::System
    } else {
        CppLicenseSource::Unknown
    }
}

/// The license information of the resolved C++ dependencies, each given
/// with the license found for it (see `describes`).
pub fn analyze_cpp_licenses(
    dependencies: Vec<(String, String, String)>,
    known_licenses: &Vec<(String, License)>,
    osi_licenses: &Vec<(String, OsiStatus)>,
    config: &FeludaConfig,
) -> (r: Vec<LicenseInfo>)
    ensures
        r@.len() == dependencies@.len(),
        forall|k: int|
            0 <= k < dependencies@.len() ==> describes(
                #[trigger] r@[k],
                triple_views(dependencies@)[k],
                known_licenses@,
                osi_licenses@,
                *config,
            ),
{
    dependency_licenses(dependencies, known_licenses, osi_licenses, config)
}

/// The dependencies a ConanCenter package document requires: the Conan
/// reference of each string of its `requires` (see `conan_ref`), in order.
pub open spec fn conan_center_requires(items: Seq<Option<Seq<char>>>) -> Seq<(Seq<char>, Seq<char>)>
    decreases items.len(),
{
    if items.len() == 0 {
        seq![]
    } else {
        let rest = conan_center_requires(items.drop_last());
        match items.last() {
            Some(r) => match conan_ref(r) {
                Some(d) => rest.push(d),
                None => rest,
            },
            None => rest,
        }
    }
}

/// The dependencies a ConanCenter package document requires (see
/// `conan_center_requires`); none without a `requires` list.
pub fn conan_center_dependencies(body: &str) -> (r: Vec<(String, String)>)
    ensures
        dep_views(r@) == match json_string_items(body@, seq!["requires"@]) {
            Some(items) => conan_center_requires(items),
            None => seq![],
        },
{
    let mut out: Vec<(String, String)> = Vec::new();
    let items = match json_string_items_at(body, &path1("requires")) {
        Some(v) => v,
        None => {
            assert(dep_views(out@) =~= Seq::<(Seq<char>, Seq<char>)>::empty());
            return out;
        },
    };
    let ghost iv = opt_strings(items@);
    let mut i: usize = 0;
    while i < items.len()
        invariant
            i <= items@.len(),
            iv == opt_strings(items@),
            dep_views(out@) == conan_center_requires(iv.take(i as int)),
        decreases items@.len() - i,
    {
        assert(iv.take(i + 1).drop_last() =~= iv.take(i as int));
        assert(iv[i as int] == opt_string(items@[i as int]));
        match &items[i] {
            Some(r) => {
                let rc = to_chars(r.as_str());
                match conan_ref_exec(rc.as_slice()) {
                    Some(p) => {
                        let ghost before = dep_views(out@);
                        let ghost pv = (p.0@, p.1@);
                        out.push(p);
                        assert(dep_views(out@) =~= before.push(pv));
                    },
                    None => {},
                }
            },
            None => {},
        }
        i = i + 1;
    }
    assert(iv.take(iv.len() as int) =~= iv);
    out
}

/// The external repository a line of `bazel query` output names: for a
/// trimmed line starting with `@` and holding `//`, what lies between its
/// first `@` and its first `//`, unless empty or the queried package.
pub open spec fn bazel_query_dep(line: Seq<char>, package: Seq<char>) -> Option<Seq<char>> {
    let t = trim(line);
    if starts_with(t, "@"@) && find(t, "//"@) is Some {
        let s = find(t, "//"@).unwrap();
        if s >= 1 {
            let name = t.subrange(1, s);
            if name.len() > 0 && name != package {
                Some(name)
            } else {
                None
            }
        } else {
            None
        }
    } else {
        None
    }
}

/// The repositories the lines of `bazel query` output name, each at version
/// `bazel`, in order.
pub open spec fn bazel_query_deps(ls: Seq<Seq<char>>, package: Seq<char>) -> Seq<(Seq<char>, Seq<char>)>
    decreases ls.len(),
{
    if ls.len() == 0 {
        seq![]
    } else {
        let rest = bazel_query_deps(ls.drop_last(), package);
        match bazel_query_dep(ls.last(), package) {
            Some(n) => rest.push((n, "bazel"@)),
            None => rest,
        }
    }
}

/// The dependencies of a package that `bazel query 'deps(@package//...)'`
/// prints (see `bazel_query_deps`).
pub fn parse_bazel_query_output(output: &str, package_name: &str) -> (r: Vec<(String, String)>)
    ensures
        dep_views(r@) == bazel_query_deps(lines(output@), package_name@),
{
    let oc = to_chars(output);
    let ls = lines_exec(oc.as_slice());
    let ghost lv = seqs(ls@);
    let pc = to_chars(package_name);
    let slashes = to_chars("//");
    let mut out: Vec<(String, String)> = Vec::new();
    let mut i: usize = 0;
    while i < ls.len()
        invariant
            i <= ls@.len(),
            lv == seqs(ls@),
            pc@ == package_name@,
            slashes@ == "//"@,
            dep_views(out@) == bazel_query_deps(lv.take(i as int), package_name@),
        decreases ls@.len() - i,
    {
        assert(lv.take(i + 1).drop_last() =~= lv.take(i as int));
        assert(lv[i as int] == ls@[i as int]@);
        let t = trimmed(ls[i].as_slice());
        if starts_with_str(t.as_slice(), "@") {
            match find_exec(t.as_slice(), slashes.as_slice()) {
                Some(s) => {
                    proof {
                        crate::text::lemma_find(t@, slashes@);
                    }
                    if s >= 1 {
                        let name = slice_of(t.as_slice(), 1, s);
                        if name.len() > 0 && !crate::text::eq_exec(name.as_slice(), pc.as_slice()) {
                            let ghost before = dep_views(out@);
                            let p = (from_chars(name.as_slice()), owned("bazel"));
                            let ghost pv = (p.0@, p.1@);
                            out.push(p);
                            assert(dep_views(out@) =~= before.push(pv));
                        }
                    }
                },
                None => {},
            }
        }
        i = i + 1;
    }
    assert(lv.take(lv.len() as int) =~= lv);
    out
}

/// The license a registry document declares: its top-level `license`
/// string.
pub open spec fn registry_license_of(body: Seq<char>) -> Option<Seq<char>> {
    json_string(body, seq!["license"@])
}

/// The license a vcpkg port manifest or a ConanCenter package document
/// declares (see `registry_license_of`).
pub fn registry_license(body: &str) -> (r: Option<String>)
    ensures
        opt_string(r) == registry_license_of(body@),
{
    proof {
        reveal_strlit("license");
    }
    json_string_at(body, &path1("license"))
}

} // verus!
