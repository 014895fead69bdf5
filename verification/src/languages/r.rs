//! R package metadata: dependencies declared in a `DESCRIPTION` (DCF) file.

use vstd::prelude::*;

use crate::documents::{
    entry_strings, json_field_entries, json_field_entries_at, json_first_item_string, json_first_item_string_at,
    json_is_valid, json_string, json_string_at, json_valid, path1,
};
use crate::languages::python::{unknown_for, unknown_license_for};

use crate::config::FeludaConfig;
use crate::licenses::{
    License, LicenseInfo, OsiStatus, dependency_licenses, describes, licensed, opt_string, triple_views, with_licenses,
};
use crate::text::{
    ends_with, ends_with_str, eq_str, extend, from_chars, lines, lines_exec, pairs, push_pair, replace, replace_exec, split,
    split_exec, split_once, split_once_exec, starts_with, starts_with_str, to_chars, trim,
    trim_end_char, trim_end_char_exec, trimmed,
};

verus! {

/// The DCF fields that declare dependencies.
pub open spec fn dependency_field(f: Seq<char>) -> bool {
    f == "Imports"@ || f == "Depends"@ || f == "Suggests"@ || f == "LinkingTo"@
}

/// The version in a dependency's parenthesised specification, without its
/// comparison operators.
pub open spec fn dcf_version(spec: Seq<char>) -> Seq<char> {
    trim(
        replace(
            replace(
                replace(
                    replace(
                        replace(trim(trim_end_char(spec, ')')), ">="@, ""@),
                        "<="@,
                        ""@,
                    ),
                    ">"@,
                    ""@,
                ),
                "<"@,
                ""@,
            ),
            "=="@,
            ""@,
        ),
    )
}

/// The dependencies of one comma-separated piece: none for an empty piece or
/// the R version requirement `R (...)`, else the name and its version
/// (`latest` when none is given).
pub open spec fn dcf_piece(part: Seq<char>) -> Seq<(Seq<char>, Seq<char>)> {
    let p = trim(part);
    if p.len() == 0 || starts_with(p, "R ("@) {
        seq![]
    } else {
        match split_once(p, "("@) {
            Some((pkg, spec)) => seq![(trim(pkg), dcf_version(spec))],
            None => seq![(p, "latest"@)],
        }
    }
}

/// The dependencies of a list of pieces, in order.
pub open spec fn dcf_pieces(ps: Seq<Seq<char>>) -> Seq<(Seq<char>, Seq<char>)>
    decreases ps.len(),
{
    if ps.len() == 0 {
        seq![]
    } else {
        dcf_pieces(ps.drop_last()) + dcf_piece(ps.last())
    }
}

/// The dependencies that a field declares: only dependency fields declare any.
pub open spec fn field_deps(field: Seq<char>, value: Seq<char>) -> Seq<(Seq<char>, Seq<char>)> {
    if dependency_field(field) {
        dcf_pieces(split(value, ','))
    } else {
        seq![]
    }
}

/// Adds the dependencies that a DCF field declares to `deps`.
pub fn process_dependency_field(field: &str, value: &str, deps: &mut Vec<(String, String)>)
    ensures
        pairs(final(deps)@) == pairs(old(deps)@) + field_deps(field@, value@),
{
    let f = to_chars(field);
    let f = f.as_slice();
    if !(eq_str(f, "Imports") || eq_str(f, "Depends") || eq_str(f, "Suggests") || eq_str(
        f,
        "LinkingTo",
    )) {
        assert(pairs(deps@) =~= pairs(deps@) + Seq::<(Seq<char>, Seq<char>)>::empty());
        return;
    }
    let v = to_chars(value);
    let parts = split_exec(v.as_slice(), ',');
    let ghost ps = crate::text::seqs(parts@);
    let mut i: usize = 0;
    assert(pairs(deps@) =~= pairs(old(deps)@) + dcf_pieces(ps.take(0)));
    while i < parts.len()
        invariant
            i <= parts@.len(),
            ps == crate::text::seqs(parts@),
            pairs(deps@) == pairs(old(deps)@) + dcf_pieces(ps.take(i as int)),
        decreases parts@.len() - i,
    {
        assert(ps.take(i + 1).drop_last() =~= ps.take(i as int));
        assert(ps.take(i + 1).last() == parts@[i as int]@);
        let ghost before = pairs(deps@);
        let p = trimmed(parts[i].as_slice());
        if p.len() == 0 || starts_with_str(p.as_slice(), "R (") {
            assert(before =~= before + Seq::<(Seq<char>, Seq<char>)>::empty());
        } else {
            match split_once_exec(p.as_slice(), "(") {
                Some((pkg, spec)) => {
                    let name = trimmed(pkg.as_slice());
                    let s0 = trim_end_char_exec(spec.as_slice(), ')');
                    let s1 = trimmed(s0.as_slice());
                    proof {
                        reveal_strlit(">=");
                        reveal_strlit("<=");
                        reveal_strlit(">");
                        reveal_strlit("<");
                        reveal_strlit("==");
                    }
                    let s2 = replace_exec(s1.as_slice(), ">=", "");
                    let s3 = replace_exec(s2.as_slice(), "<=", "");
                    let s4 = replace_exec(s3.as_slice(), ">", "");
                    let s5 = replace_exec(s4.as_slice(), "<", "");
                    let s6 = replace_exec(s5.as_slice(), "==", "");
                    let ver = trimmed(s6.as_slice());
                    push_pair(deps, name.as_slice(), ver.as_slice());
                },
                None => {
                    let latest = to_chars("latest");
                    push_pair(deps, p.as_slice(), latest.as_slice());
                },
            }
        }
        assert(pairs(old(deps)@) + dcf_pieces(ps.take(i + 1)) =~= pairs(deps@));
        i = i + 1;
    }
    assert(ps.take(parts@.len() as int) =~= ps);
}

/// State of a DCF scan: the current field, its value so far, and the
/// dependencies of the fields already closed.
pub type DcfState = (Seq<char>, Seq<char>, Seq<(Seq<char>, Seq<char>)>);

/// One line of a DCF scan: an indented line continues the current value
/// (joined by a space); a `field: value` line closes the current field and
/// opens a new one; other lines change nothing.
pub open spec fn dcf_step(st: DcfState, line: Seq<char>) -> DcfState {
    if starts_with(line, " "@) || starts_with(line, "\t"@) {
        (st.0, st.1 + " "@ + trim(line), st.2)
    } else {
        match split_once(line, ":"@) {
            Some((f, v)) => (
                trim(f),
                trim(v),
                st.2 + if st.0.len() > 0 {
                    field_deps(st.0, st.1)
                } else {
                    seq![]
                },
            ),
            None => st,
        }
    }
}

/// The DCF scan over a sequence of lines.
pub open spec fn dcf_scan(ls: Seq<Seq<char>>) -> DcfState
    decreases ls.len(),
{
    if ls.len() == 0 {
        (seq![], seq![], seq![])
    } else {
        dcf_step(dcf_scan(ls.drop_last()), ls.last())
    }
}

/// The dependencies declared in DCF text: every field's, once it is closed
/// by the next field or by the end of the text.
pub open spec fn dcf_dependencies(content: Seq<char>) -> Seq<(Seq<char>, Seq<char>)> {
    let st = dcf_scan(lines(content));
    st.2 + if st.0.len() > 0 {
        field_deps(st.0, st.1)
    } else {
        seq![]
    }
}

/// Parses the dependency fields (`Imports`, `Depends`, `Suggests`,
/// `LinkingTo`) of a DESCRIPTION file into (name, version) pairs, in order.
pub fn parse_dcf_dependencies(content: &str) -> (r: Vec<(String, String)>)
    ensures
        pairs(r@) == dcf_dependencies(content@),
{
    let c = to_chars(content);
    let ls = lines_exec(c.as_slice());
    let ghost l = crate::text::seqs(ls@);
    let mut deps: Vec<(String, String)> = Vec::new();
    let mut field: Vec<char> = Vec::new();
    let mut value: Vec<char> = Vec::new();
    let mut i: usize = 0;
    while i < ls.len()
        invariant
            i <= ls@.len(),
            l == crate::text::seqs(ls@),
            l == lines(content@),
            dcf_scan(l.take(i as int)) == (field@, value@, pairs(deps@)),
        decreases ls@.len() - i,
    {
        assert(l.take(i + 1).drop_last() =~= l.take(i as int));
        assert(l.take(i + 1).last() == ls@[i as int]@);
        let line = ls[i].as_slice();
        if starts_with_str(line, " ") || starts_with_str(line, "\t") {
            let t = trimmed(line);
            extend(&mut value, to_chars(" ").as_slice());
            extend(&mut value, t.as_slice());
        } else {
            match split_once_exec(line, ":") {
                Some((f, v)) => {
                    if field.len() > 0 {
                        let fs = crate::text::from_chars(field.as_slice());
                        let vs = crate::text::from_chars(value.as_slice());
                        process_dependency_field(fs.as_str(), vs.as_str(), &mut deps);
                    } else {
                        assert(pairs(deps@) =~= pairs(deps@) + Seq::<
                            (Seq<char>, Seq<char>),
                        >::empty());
                    }
                    field = trimmed(f.as_slice());
                    value = trimmed(v.as_slice());
                },
                None => {},
            }
        }
        i = i + 1;
    }
    assert(l.take(ls@.len() as int) =~= l);
    if field.len() > 0 {
        let fs = crate::text::from_chars(field.as_slice());
        let vs = crate::text::from_chars(value.as_slice());
        process_dependency_field(fs.as_str(), vs.as_str(), &mut deps);
    } else {
        assert(pairs(deps@) =~= pairs(deps@) + Seq::<(Seq<char>, Seq<char>)>::empty());
    }
    deps
}

/// The packages of a `renv.lock` file's `Packages` object, each at its
/// `Version` (`unknown` without one), in order.
pub open spec fn renv_deps(es: Seq<(String, Option<String>)>) -> Seq<(Seq<char>, Seq<char>)>
    decreases es.len(),
{
    if es.len() == 0 {
        Seq::empty()
    } else {
        renv_deps(es.drop_last()).push(
            (
                es.last().0@,
                match es.last().1 {
                    Some(v) => v@,
                    None => "unknown"@,
                },
            ),
        )
    }
}

/// The packages of a `renv.lock` file (see `renv_deps`).
pub fn renv_packages(entries: &Vec<(String, Option<String>)>) -> (r: Vec<(String, String)>)
    ensures
        pairs(r@) == renv_deps(entries@),
{
    let mut out: Vec<(String, String)> = Vec::new();
    let mut i: usize = 0;
    while i < entries.len()
        invariant
            i <= entries@.len(),
            pairs(out@) == renv_deps(entries@.take(i as int)),
        decreases entries@.len() - i,
    {
        assert(entries@.take(i + 1).drop_last() =~= entries@.take(i as int));
        let nc = to_chars(entries[i].0.as_str());
        let vc = match &entries[i].1 {
            Some(v) => to_chars(v.as_str()),
            None => to_chars("unknown"),
        };
        push_pair(&mut out, nc.as_slice(), vc.as_slice());
        i = i + 1;
    }
    assert(entries@.take(entries@.len() as int) =~= entries@);
    out
}

/// The license information of an R project, given its manifest's name and
/// text and the licenses looked up for its packages: the packages its
/// manifest lists (see `r_direct`), each with the license the table gives it
/// (see `licensed`, `describes`). Only a `renv.lock` or a `DESCRIPTION` is
/// read; any other file gives no dependency.
pub fn analyze_r_licenses(
    file_name: &str,
    content: &str,
    licenses: &Vec<(String, String, String)>,
    known_licenses: &Vec<(String, License)>,
    osi_licenses: &Vec<(String, OsiStatus)>,
    config: &FeludaConfig,
) -> (r: Vec<LicenseInfo>)
    ensures
        r@.len() == r_direct(file_name@, content@).len(),
        forall|k: int|
            0 <= k < r@.len() ==> describes(
                #[trigger] r@[k],
                licensed(r_direct(file_name@, content@), triple_views(licenses@))[k],
                known_licenses@,
                osi_licenses@,
                *config,
            ),
        !ends_with(file_name@, "renv.lock"@) && !ends_with(file_name@, "DESCRIPTION"@) ==> r@.len() == 0,
{
    let packages = r_direct_dependencies(file_name, content);
    let triples = with_licenses(&packages, licenses);
    assert(triple_views(triples@).len() == triples@.len());
    dependency_licenses(triples, known_licenses, osi_licenses, config)
}

/// The r-universe search for a package.
pub open spec fn search_url(name: Seq<char>) -> Seq<char> {
    "https://r-universe.dev/api/search?q="@ + name + "&limit=1"@
}

/// The r-universe search for a package (see `search_url`).
pub fn r_universe_search_url(name: &str) -> (r: String)
    ensures
        r@ == search_url(name@),
{
    let mut v = to_chars("https://r-universe.dev/api/search?q=");
    crate::text::extend_str(&mut v, name);
    crate::text::extend_str(&mut v, "&limit=1");
    from_chars(v.as_slice())
}

/// The r-universe package document a search answer points to: that of the
/// `_user` of its first result.
pub open spec fn package_url(name: Seq<char>, search: Seq<char>) -> Option<Seq<char>> {
    match json_first_item_string(search, seq!["results"@], "_user"@) {
        Some(user) => Some("https://"@ + user + ".r-universe.dev/api/packages/"@ + name),
        None => None,
    }
}

/// The r-universe package document a search answer points to (see
/// `package_url`).
pub fn r_universe_package_url(name: &str, search: &str) -> (r: Option<String>)
    ensures
        opt_string(r) == package_url(name@, search@),
{
    match json_first_item_string_at(search, &path1("results"), "_user") {
        Some(user) => {
            let mut v = to_chars("https://");
            crate::text::extend_str(&mut v, user.as_str());
            crate::text::extend_str(&mut v, ".r-universe.dev/api/packages/");
            crate::text::extend_str(&mut v, name);
            Some(from_chars(v.as_slice()))
        },
        None => None,
    }
}

/// The license of an R package from the r-universe answers (`None` for one
/// not received): `Unknown` without a JSON search answer, the package
/// document's `License` when not empty, else `unknown_for`.
pub open spec fn r_license(name: Seq<char>, version: Seq<char>, search: Option<Seq<char>>, package: Option<Seq<char>>) -> Seq<
    char,
> {
    match search {
        Some(s) => if !json_valid(s) {
            "Unknown"@
        } else {
            match package {
                Some(p) => match json_string(p, seq!["License"@]) {
                    Some(l) => if l.len() > 0 {
                        l
                    } else {
                        unknown_for(name, version)
                    },
                    None => unknown_for(name, version),
                },
                None => unknown_for(name, version),
            }
        },
        None => "Unknown"@,
    }
}

/// The license of an R package from the r-universe search answer and the
/// package document it points to, where they were received (see
/// `r_license`).
pub fn r_license_from_universe(name: &str, version: &str, search: Option<&str>, package: Option<&str>) -> (r: String)
    ensures
        r@ == r_license(name@, version@, crate::licenses::opt_str(search), crate::licenses::opt_str(package)),
{
    match search {
        Some(s) => if !json_is_valid(s) {
            crate::text::owned("Unknown")
        } else {
            match package {
                Some(p) => match json_string_at(p, &path1("License")) {
                    Some(l) => {
                        let lc = to_chars(l.as_str());
                        if lc.len() > 0 {
                            l
                        } else {
                            unknown_license_for(name, version)
                        }
                    },
                    None => unknown_license_for(name, version),
                },
                None => unknown_license_for(name, version),
            }
        },
        None => crate::text::owned("Unknown"),
    }
}

/// The packages of `renv.lock` entries given by their views, each at its
/// version (`unknown` without one), in order.
pub open spec fn renv_view_deps(es: Seq<(Seq<char>, Option<Seq<char>>)>) -> Seq<(Seq<char>, Seq<char>)>
    decreases es.len(),
{
    if es.len() == 0 {
        Seq::empty()
    } else {
        renv_view_deps(es.drop_last()).push(
            (
                es.last().0,
                match es.last().1 {
                    Some(v) => v,
                    None => "unknown"@,
                },
            ),
        )
    }
}

/// `renv_deps` depends on the views of the entries only.
proof fn lemma_renv_views(es: Seq<(String, Option<String>)>)
    ensures
        renv_deps(es) == renv_view_deps(entry_strings(es)),
    decreases es.len(),
{
    if es.len() > 0 {
        assert(entry_strings(es).drop_last() =~= entry_strings(es.drop_last()));
        lemma_renv_views(es.drop_last());
    }
}

/// The `Packages` of a `renv.lock` document: each package name with its
/// `Version` when it is a string (see `json_field_entries`); `None` when
/// the document does not parse or has no `Packages` object.
pub fn renv_lock_entries(content: &str) -> (r: Option<Vec<(String, Option<String>)>>)
    ensures
        match r {
            Some(v) => json_field_entries(content@, seq!["Packages"@], "Version"@) == Some(entry_strings(v@)),
            None => json_field_entries(content@, seq!["Packages"@], "Version"@) is None,
        },
{
    proof {
        reveal_strlit("Packages");
        reveal_strlit("Version");
    }
    json_field_entries_at(content, &path1("Packages"), "Version")
}

/// The direct dependencies an R manifest lists: the packages of a
/// `renv.lock` (see `renv_view_deps`), the dependency fields of a
/// `DESCRIPTION` (see `dcf_dependencies`), and none for any other file.
pub open spec fn r_direct(file_name: Seq<char>, content: Seq<char>) -> Seq<(Seq<char>, Seq<char>)> {
    if ends_with(file_name, "renv.lock"@) {
        match json_field_entries(content, seq!["Packages"@], "Version"@) {
            Some(es) => renv_view_deps(es),
            None => seq![],
        }
    } else if ends_with(file_name, "DESCRIPTION"@) {
        dcf_dependencies(content)
    } else {
        seq![]
    }
}

/// The direct dependencies of an R manifest named `file_name` with text
/// `content` (see `r_direct`).
pub fn r_direct_dependencies(file_name: &str, content: &str) -> (r: Vec<(String, String)>)
    ensures
        pairs(r@) == r_direct(file_name@, content@),
{
    let f = to_chars(file_name);
    if ends_with_str(f.as_slice(), "renv.lock") {
        match renv_lock_entries(content) {
            Some(es) => {
                proof {
                    lemma_renv_views(es@);
                }
                renv_packages(&es)
            },
            None => {
                let v: Vec<(String, String)> = Vec::new();
                assert(pairs(v@) =~= Seq::<(Seq<char>, Seq<char>)>::empty());
                v
            },
        }
    } else if ends_with_str(f.as_slice(), "DESCRIPTION") {
        parse_dcf_dependencies(content)
    } else {
        let v: Vec<(String, String)> = Vec::new();
        assert(pairs(v@) =~= Seq::<(Seq<char>, Seq<char>)>::empty());
        v
    }
}

} // verus!
