//! C dependencies: the package lists of Debian and RPM queries.

use vstd::prelude::*;

use crate::config::FeludaConfig;
use crate::licenses::{
    License, LicenseInfo, OsiStatus, dependency_licenses, describes, opt_string, triple_views,
};
use crate::pattern::{
    Groups, groups_view, match_view, regex_all, regex_captures, regex_captures_iter,
    regex_compile_error, regex_first_each,
};
use crate::text::{
    eq_str, extend, extend_str, find, find_exec, lines, lines_exec, owned, seqs, slice_of, split, split_exec, starts_with,
    starts_with_str, to_chars, trim, trim_char_exec, trim_end_char, trim_start_char, trimmed, words,
    words_exec, from_chars,
};

verus! {

/// The version recorded for a system package.
pub open spec fn system_version() -> Seq<char> {
    "system"@
}

/// The package named by one entry of a Debian `Depends` field: its first
/// word, up to the first alternative (`|`), trimmed; nothing for a blank
/// entry, a substitution variable (`${...}`) or an empty name.
pub open spec fn debian_entry(entry: Seq<char>) -> Option<Seq<char>> {
    let d = trim(entry);
    if d.len() == 0 || starts_with(d, "${"@) || words(d).len() == 0 {
        None
    } else {
        let name = trim(split(words(d)[0], '|')[0]);
        if name.len() == 0 {
            None
        } else {
            Some(name)
        }
    }
}

/// The packages named by the entries of a Debian `Depends` field, in order.
pub open spec fn debian_names(entries: Seq<Seq<char>>) -> Seq<Seq<char>>
    decreases entries.len(),
{
    if entries.len() == 0 {
        Seq::empty()
    } else {
        let rest = debian_names(entries.drop_last());
        match debian_entry(entries.last()) {
            Some(n) => rest.push(n),
            None => rest,
        }
    }
}

/// The package named by one line of `rpm -q --requires`: its first word,
/// unless the line is blank, an `rpmlib(...)` capability or a file path.
pub open spec fn rpm_entry(line: Seq<char>) -> Option<Seq<char>> {
    let t = trim(line);
    if t.len() == 0 || starts_with(t, "rpmlib("@) || starts_with(t, "/"@) || words(t).len() == 0 {
        None
    } else {
        Some(words(t)[0])
    }
}

/// The packages named by the lines of `rpm -q --requires`, in order.
pub open spec fn rpm_names(ls: Seq<Seq<char>>) -> Seq<Seq<char>>
    decreases ls.len(),
{
    if ls.len() == 0 {
        Seq::empty()
    } else {
        let rest = rpm_names(ls.drop_last());
        match rpm_entry(ls.last()) {
            Some(n) => rest.push(n),
            None => rest,
        }
    }
}

/// Each name paired with the system version.
pub open spec fn as_system(names: Seq<Seq<char>>) -> Seq<(Seq<char>, Seq<char>)> {
    names.map_values(|n: Seq<char>| (n, system_version()))
}

/// The views of name and version pairs.
pub open spec fn dep_views(v: Seq<(String, String)>) -> Seq<(Seq<char>, Seq<char>)> {
    v.map_values(|p: (String, String)| (p.0@, p.1@))
}

/// The package of one Debian entry.
fn debian_entry_exec(entry: &[char]) -> (r: Option<Vec<char>>)
    ensures
        match debian_entry(entry@) {
            Some(n) => r matches Some(v) && v@ == n,
            None => r is None,
        },
{
    let d = trimmed(entry);
    if d.len() == 0 || starts_with_str(d.as_slice(), "${") {
        return None;
    }
    let ws = words_exec(d.as_slice());
    if ws.len() == 0 {
        return None;
    }
    let alts = split_exec(ws[0].as_slice(), '|');
    proof {
        crate::text::lemma_split_acc_nonempty(ws@[0]@, '|', seq![]);
    }
    let name = trimmed(alts[0].as_slice());
    if name.len() == 0 {
        None
    } else {
        Some(name)
    }
}

/// Appends `(name, "system")`.
fn push_system(out: &mut Vec<(String, String)>, name: &[char])
    ensures
        dep_views(final(out)@) == dep_views(old(out)@).push((name@, system_version())),
{
    let n = from_chars(name);
    out.push((n, owned("system")));
    assert(dep_views(final(out)@) =~= dep_views(old(out)@).push((name@, system_version())));
}

/// The packages of a Debian `Depends` field (as printed by `dpkg-query`),
/// each with the system version.
pub fn parse_debian_dependencies(depends_str: &str) -> (r: Result<Vec<(String, String)>, String>)
    ensures
        r matches Ok(v) && dep_views(v@) == as_system(debian_names(split(depends_str@, ','))),
{
    let sc = to_chars(depends_str);
    let entries = split_exec(sc.as_slice(), ',');
    let ghost es = seqs(entries@);
    let mut out: Vec<(String, String)> = Vec::new();
    let mut i: usize = 0;
    while i < entries.len()
        invariant
            i <= entries@.len(),
            es == seqs(entries@),
            es == split(depends_str@, ','),
            dep_views(out@) == as_system(debian_names(es.take(i as int))),
        decreases entries@.len() - i,
    {
        assert(es.take(i + 1).drop_last() =~= es.take(i as int));
        match debian_entry_exec(entries[i].as_slice()) {
            Some(n) => {
                push_system(&mut out, n.as_slice());
                assert(as_system(debian_names(es.take(i + 1))) =~= as_system(
                    debian_names(es.take(i as int)),
                ).push((n@, system_version())));
            },
            None => {},
        }
        i = i + 1;
    }
    assert(es.take(es.len() as int) =~= es);
    Ok(out)
}

/// The package of one `rpm` line.
fn rpm_entry_exec(line: &[char]) -> (r: Option<Vec<char>>)
    ensures
        match rpm_entry(line@) {
            Some(n) => r matches Some(v) && v@ == n,
            None => r is None,
        },
{
    let t = trimmed(line);
    if t.len() == 0 || starts_with_str(t.as_slice(), "rpmlib(") || starts_with_str(t.as_slice(), "/") {
        return None;
    }
    let ws = words_exec(t.as_slice());
    if ws.len() == 0 {
        None
    } else {
        let w = crate::text::slice_of(ws[0].as_slice(), 0, ws[0].len());
        assert(w@ =~= ws@[0]@);
        Some(w)
    }
}

/// The packages named by `rpm -q --requires` output, each with the system
/// version.
pub fn parse_rpm_dependencies(requires_str: &str) -> (r: Result<Vec<(String, String)>, String>)
    ensures
        r matches Ok(v) && dep_views(v@) == as_system(rpm_names(lines(requires_str@))),
{
    let sc = to_chars(requires_str);
    let ls = lines_exec(sc.as_slice());
    let ghost lv = seqs(ls@);
    let mut out: Vec<(String, String)> = Vec::new();
    let mut i: usize = 0;
    while i < ls.len()
        invariant
            i <= ls@.len(),
            lv == seqs(ls@),
            lv == lines(requires_str@),
            dep_views(out@) == as_system(rpm_names(lv.take(i as int))),
        decreases ls@.len() - i,
    {
        assert(lv.take(i + 1).drop_last() =~= lv.take(i as int));
        match rpm_entry_exec(ls[i].as_slice()) {
            Some(n) => {
                push_system(&mut out, n.as_slice());
                assert(as_system(rpm_names(lv.take(i + 1))) =~= as_system(rpm_names(lv.take(i as int))).push(
                    (n@, system_version()),
                ));
            },
            None => {},
        }
        i = i + 1;
    }
    assert(lv.take(lv.len() as int) =~= lv);
    Ok(out)
}

/// Group `i` of a match, if it took part.
pub open spec fn group(g: Groups, i: int) -> Option<Seq<char>> {
    if 0 <= i < g.len() {
        g[i]
    } else {
        None
    }
}

/// Group `i` of a match, if it took part.
pub(crate) fn group_exec(g: &Vec<Option<String>>, i: usize) -> (r: Option<Vec<char>>)
    ensures
        match group(groups_view(*g), i as int) {
            Some(s) => r matches Some(v) && v@ == s,
            None => r is None,
        },
{
    if i < g.len() {
        match &g[i] {
            Some(s) => Some(to_chars(s.as_str())),
            None => None,
        }
    } else {
        None
    }
}

/// The views of the matches of a pattern.
pub open spec fn matches_view(v: Seq<Vec<Option<String>>>) -> Seq<Groups> {
    v.map_values(|g: Vec<Option<String>>| groups_view(g))
}

/// The version a pkg-config requirement gives: the third word after a
/// `>=`, `=` or `>` operator, else the system version.
pub open spec fn requirement_version(parts: Seq<Seq<char>>) -> Seq<char> {
    if parts.len() > 2 && (parts[1] == ">="@ || parts[1] == "="@ || parts[1] == ">"@) {
        parts[2]
    } else {
        system_version()
    }
}

/// The version a pkg-config requirement gives (see `requirement_version`).
fn requirement_version_exec(parts: &Vec<Vec<char>>) -> (r: Vec<char>)
    ensures
        r@ == requirement_version(seqs(parts@)),
{
    if parts.len() > 2 && (eq_str(parts[1].as_slice(), ">=") || eq_str(parts[1].as_slice(), "=")
        || eq_str(parts[1].as_slice(), ">")) {
        slice_of(parts[2].as_slice(), 0, parts[2].len())
    } else {
        to_chars("system")
    }
}

/// The dependency one pkg-config requirement names: its first word, with
/// the version of `requirement_version`; nothing for a blank requirement.
pub open spec fn requirement_dep(entry: Seq<char>) -> Option<(Seq<char>, Seq<char>)> {
    let d = trim(entry);
    if d.len() == 0 || words(d).len() == 0 {
        None
    } else {
        Some((words(d)[0], requirement_version(words(d))))
    }
}

/// The dependencies named by pkg-config requirements, in order.
pub open spec fn requirement_deps(entries: Seq<Seq<char>>) -> Seq<(Seq<char>, Seq<char>)>
    decreases entries.len(),
{
    if entries.len() == 0 {
        Seq::empty()
    } else {
        let rest = requirement_deps(entries.drop_last());
        match requirement_dep(entries.last()) {
            Some(d) => rest.push(d),
            None => rest,
        }
    }
}

/// The dependency of one requirement (see `requirement_dep`).
fn requirement_dep_exec(entry: &[char]) -> (r: Option<(String, String)>)
    ensures
        match requirement_dep(entry@) {
            Some(d) => r matches Some(p) && p.0@ == d.0 && p.1@ == d.1,
            None => r is None,
        },
{
    let d = trimmed(entry);
    if d.len() == 0 {
        return None;
    }
    let parts = words_exec(d.as_slice());
    if parts.len() == 0 {
        return None;
    }
    let v = requirement_version_exec(&parts);
    Some((from_chars(parts[0].as_slice()), from_chars(v.as_slice())))
}

/// The dependencies `pkg-config --print-requires` (or
/// `--print-requires-private`) prints, one requirement per line, in order.
pub fn print_requires_deps(output: &str) -> (r: Vec<(String, String)>)
    ensures
        dep_views(r@) == requirement_deps(lines(output@)),
{
    let oc = to_chars(output);
    let ls = lines_exec(oc.as_slice());
    let ghost lv = seqs(ls@);
    let mut out: Vec<(String, String)> = Vec::new();
    let mut i: usize = 0;
    while i < ls.len()
        invariant
            i <= ls@.len(),
            lv == seqs(ls@),
            dep_views(out@) == requirement_deps(lv.take(i as int)),
        decreases ls@.len() - i,
    {
        assert(lv.take(i + 1).drop_last() =~= lv.take(i as int));
        assert(lv[i as int] == ls@[i as int]@);
        match requirement_dep_exec(ls[i].as_slice()) {
            Some(p) => {
                let ghost before = dep_views(out@);
                let ghost pv = (p.0@, p.1@);
                out.push(p);
                assert(dep_views(out@) =~= before.push(pv));
            },
            None => {},
        }
        i = i + 1;
    }
    assert(lv.take(lv.len() as int) =~= lv);
    out
}

/// The dependencies of a comma-separated list of pkg-config requirements
/// (a `Requires:` field), in order.
pub fn pc_requirements(field: &str) -> (r: Vec<(String, String)>)
    ensures
        dep_views(r@) == requirement_deps(split(trim(field@), ',')),
{
    let rc = to_chars(field);
    let t = trimmed(rc.as_slice());
    let entries = split_exec(t.as_slice(), ',');
    let ghost es = seqs(entries@);
    let mut out: Vec<(String, String)> = Vec::new();
    let mut i: usize = 0;
    while i < entries.len()
        invariant
            i <= entries@.len(),
            es == seqs(entries@),
            es == split(trim(field@), ','),
            dep_views(out@) == requirement_deps(es.take(i as int)),
        decreases entries@.len() - i,
    {
        assert(es.take(i + 1).drop_last() =~= es.take(i as int));
        match requirement_dep_exec(entries[i].as_slice()) {
            Some(d) => {
                let ghost dv = (d.0@, d.1@);
                let ghost before = dep_views(out@);
                out.push(d);
                assert(dep_views(out@) =~= before.push(dv));
            },
            None => {},
        }
        i = i + 1;
    }
    assert(es.take(es.len() as int) =~= es);
    out
}

/// The `Requires:` lines of a pkg-config file.
pub open spec fn pc_requires_pattern() -> Seq<char> {
    r"^Requires(?:\.private)?\s*:\s*(.+)$"@
}

/// The dependencies of the `Requires:` lines of a pkg-config file, given
/// the match of `pc_requires_pattern` on each of its lines.
pub open spec fn pc_deps(line_matches: Seq<Option<Groups>>) -> Seq<(Seq<char>, Seq<char>)>
    decreases line_matches.len(),
{
    if line_matches.len() == 0 {
        Seq::empty()
    } else {
        pc_deps(line_matches.drop_last()) + match line_matches.last() {
            Some(g) => match group(g, 1) {
                Some(req) => requirement_deps(split(trim(req), ',')),
                None => Seq::empty(),
            },
            None => Seq::empty(),
        }
    }
}

/// The dependencies of a pkg-config file from the match of
/// `pc_requires_pattern` on each of its lines (see `pc_deps`).
pub fn pc_deps_from(line_matches: &Vec<Option<Vec<Option<String>>>>) -> (r: Vec<(String, String)>)
    ensures
        dep_views(r@) == pc_deps(line_matches@.map_values(|m: Option<Vec<Option<String>>>| match_view(m))),
{
    let ghost lm = line_matches@.map_values(|m: Option<Vec<Option<String>>>| match_view(m));
    let mut out: Vec<(String, String)> = Vec::new();
    let mut i: usize = 0;
    while i < line_matches.len()
        invariant
            i <= line_matches@.len(),
            lm == line_matches@.map_values(|m: Option<Vec<Option<String>>>| match_view(m)),
            dep_views(out@) == pc_deps(lm.take(i as int)),
        decreases line_matches@.len() - i,
    {
        assert(lm.take(i + 1).drop_last() =~= lm.take(i as int));
        assert(lm[i as int] == match_view(line_matches@[i as int]));
        let ghost before = dep_views(out@);
        match &line_matches[i] {
            Some(g) => match group_exec(g, 1) {
                Some(req) => {
                    let rs = from_chars(req.as_slice());
                    let mut more = pc_requirements(rs.as_str());
                    let ghost mv = dep_views(more@);
                    out.append(&mut more);
                    assert(dep_views(out@) =~= before + mv);
                },
                None => {},
            },
            None => {},
        }
        assert(dep_views(out@) == pc_deps(lm.take(i + 1)));
        i = i + 1;
    }
    assert(lm.take(lm.len() as int) =~= lm);
    out
}

/// The error of a pattern that does not compile, after a context prefix.
pub open spec fn compile_failure(prefix: Seq<char>, pattern: Seq<char>) -> Option<Seq<char>> {
    match regex_compile_error(pattern) {
        Some(m) => Some(prefix + m),
        None => None,
    }
}

/// `prefix` + `m` as a `String`.
fn prefixed_error(prefix: &str, m: &str) -> (r: String)
    ensures
        r@ == prefix@ + m@,
{
    let mut v = to_chars(prefix);
    extend_str(&mut v, m);
    from_chars(v.as_slice())
}

/// The dependencies of a pkg-config file's content: those of its
/// `Requires:` and `Requires.private:` lines (see `pc_deps`).
pub fn parse_pc_content(content: &str) -> (r: Result<Vec<(String, String)>, String>)
    ensures
        match compile_failure("Failed to compile requires regex: "@, pc_requires_pattern()) {
            Some(e) => r matches Err(m) && m@ == e,
            None => r matches Ok(v) && dep_views(v@) == pc_deps(
                lines(content@).map_values(|l: Seq<char>| regex_captures(pc_requires_pattern(), l)),
            ),
        },
{
    let cc = to_chars(content);
    let ls = lines_exec(cc.as_slice());
    match regex_first_each(r"^Requires(?:\.private)?\s*:\s*(.+)$", &ls) {
        Err(e) => Err(prefixed_error("Failed to compile requires regex: ", e.as_str())),
        Ok(ms) => {
            assert(ms@.map_values(|m: Option<Vec<Option<String>>>| match_view(m)) =~= lines(content@).map_values(
                |l: Seq<char>| regex_captures(pc_requires_pattern(), l),
            ));
            Ok(pc_deps_from(&ms))
        },
    }
}

/// Linker flags naming libraries in a Makefile.
pub open spec fn ldflags_pattern() -> Seq<char> {
    r"-l([a-zA-Z0-9_-]+)"@
}

/// `pkg-config` invocations in a Makefile.
pub open spec fn makefile_pkgconfig_pattern() -> Seq<char> {
    r"`pkg-config\s+--[^`]*\s+([a-zA-Z0-9_-]+)"@
}

/// The libraries linked by `-l` flags, as `lib<name>` at the system
/// version; the C library and the math library are left out.
pub open spec fn linked_libraries(ms: Seq<Groups>) -> Seq<(Seq<char>, Seq<char>)>
    decreases ms.len(),
{
    if ms.len() == 0 {
        Seq::empty()
    } else {
        let rest = linked_libraries(ms.drop_last());
        match group(ms.last(), 1) {
            Some(n) => if n.len() > 0 && n != "c"@ && n != "m"@ {
                rest.push(("lib"@ + n, system_version()))
            } else {
                rest
            },
            None => rest,
        }
    }
}

/// The packages named by group 1 of each match, at the system version.
pub open spec fn named_packages(ms: Seq<Groups>) -> Seq<(Seq<char>, Seq<char>)>
    decreases ms.len(),
{
    if ms.len() == 0 {
        Seq::empty()
    } else {
        let rest = named_packages(ms.drop_last());
        match group(ms.last(), 1) {
            Some(n) => rest.push((n, system_version())),
            None => rest,
        }
    }
}

/// The libraries of the `-l` flag matches (see `linked_libraries`).
pub fn linked_libraries_from(ms: &Vec<Vec<Option<String>>>) -> (r: Vec<(String, String)>)
    ensures
        dep_views(r@) == linked_libraries(matches_view(ms@)),
{
    let ghost mv = matches_view(ms@);
    let mut out: Vec<(String, String)> = Vec::new();
    let mut i: usize = 0;
    while i < ms.len()
        invariant
            i <= ms@.len(),
            mv == matches_view(ms@),
            dep_views(out@) == linked_libraries(mv.take(i as int)),
        decreases ms@.len() - i,
    {
        assert(mv.take(i + 1).drop_last() =~= mv.take(i as int));
        assert(mv[i as int] == groups_view(ms@[i as int]));
        match group_exec(&ms[i], 1) {
            Some(n) => {
                if n.len() > 0 && !eq_str(n.as_slice(), "c") && !eq_str(n.as_slice(), "m") {
                    let mut name = to_chars("lib");
                    extend(&mut name, n.as_slice());
                    push_system(&mut out, name.as_slice());
                }
            },
            None => {},
        }
        i = i + 1;
    }
    assert(mv.take(mv.len() as int) =~= mv);
    out
}

/// The packages of group 1 of each match (see `named_packages`).
pub fn named_packages_from(ms: &Vec<Vec<Option<String>>>) -> (r: Vec<(String, String)>)
    ensures
        dep_views(r@) == named_packages(matches_view(ms@)),
{
    let ghost mv = matches_view(ms@);
    let mut out: Vec<(String, String)> = Vec::new();
    let mut i: usize = 0;
    while i < ms.len()
        invariant
            i <= ms@.len(),
            mv == matches_view(ms@),
            dep_views(out@) == named_packages(mv.take(i as int)),
        decreases ms@.len() - i,
    {
        assert(mv.take(i + 1).drop_last() =~= mv.take(i as int));
        assert(mv[i as int] == groups_view(ms@[i as int]));
        match group_exec(&ms[i], 1) {
            Some(n) => {
                push_system(&mut out, n.as_slice());
            },
            None => {},
        }
        i = i + 1;
    }
    assert(mv.take(mv.len() as int) =~= mv);
    out
}

/// The dependencies a Makefile names: the libraries of its `-l` flags, then
/// the packages of its `pkg-config` invocations.
pub fn parse_makefile_content(content: &str) -> (r: Result<Vec<(String, String)>, String>)
    ensures
        match compile_failure("Failed to compile ldflags regex: "@, ldflags_pattern()) {
            Some(e) => r matches Err(m) && m@ == e,
            None => match compile_failure(
                "Failed to compile pkg-config regex: "@,
                makefile_pkgconfig_pattern(),
            ) {
                Some(e) => r matches Err(m) && m@ == e,
                None => r matches Ok(v) && dep_views(v@) == linked_libraries(
                    regex_captures_iter(ldflags_pattern(), content@),
                ) + named_packages(regex_captures_iter(makefile_pkgconfig_pattern(), content@)),
            },
        },
{
    let libs = match regex_all(r"-l([a-zA-Z0-9_-]+)", content) {
        Err(e) => {
            return Err(prefixed_error("Failed to compile ldflags regex: ", e.as_str()));
        },
        Ok(ms) => linked_libraries_from(&ms),
    };
    match regex_all(r"`pkg-config\s+--[^`]*\s+([a-zA-Z0-9_-]+)", content) {
        Err(e) => Err(prefixed_error("Failed to compile pkg-config regex: ", e.as_str())),
        Ok(ms) => {
            let mut out = libs;
            let ghost a = dep_views(out@);
            let mut more = named_packages_from(&ms);
            let ghost b = dep_views(more@);
            out.append(&mut more);
            assert(dep_views(out@) =~= a + b);
            Ok(out)
        },
    }
}

/// `PKG_CHECK_MODULES` calls in an autotools configuration.
pub open spec fn pkg_check_pattern() -> Seq<char> {
    r"PKG_CHECK_MODULES\s*\(\s*\w+\s*,\s*([^,\)]+)"@
}

/// `AC_CHECK_LIB` calls in an autotools configuration.
pub open spec fn ac_check_lib_pattern() -> Seq<char> {
    r"AC_CHECK_LIB\s*\(\s*([^,\)]+)"@
}

/// A macro argument without surrounding blanks and quotes: trimmed, then
/// stripped of double quotes, then of single quotes, at both ends.
pub open spec fn unquoted(s: Seq<char>) -> Seq<char> {
    trim_end_char(trim_start_char(trim_end_char(trim_start_char(trim(s), '"'), '"'), '\''), '\'')
}

/// An argument without surrounding blanks and quotes.
fn unquoted_exec(s: &[char]) -> (r: Vec<char>)
    ensures
        r@ == unquoted(s@),
{
    let t = trimmed(s);
    let a = trim_char_exec(t.as_slice(), '"');
    trim_char_exec(a.as_slice(), '\'')
}

/// The modules checked by `PKG_CHECK_MODULES`: the first word of the
/// module list, with the version of `requirement_version`.
pub open spec fn checked_modules(ms: Seq<Groups>) -> Seq<(Seq<char>, Seq<char>)>
    decreases ms.len(),
{
    if ms.len() == 0 {
        Seq::empty()
    } else {
        let rest = checked_modules(ms.drop_last());
        match group(ms.last(), 1) {
            Some(a) => {
                let parts = words(unquoted(a));
                if parts.len() > 0 {
                    rest.push((parts[0], requirement_version(parts)))
                } else {
                    rest
                }
            },
            None => rest,
        }
    }
}

/// The libraries checked by `AC_CHECK_LIB`, unquoted, at the system
/// version.
pub open spec fn checked_libraries(ms: Seq<Groups>) -> Seq<(Seq<char>, Seq<char>)>
    decreases ms.len(),
{
    if ms.len() == 0 {
        Seq::empty()
    } else {
        let rest = checked_libraries(ms.drop_last());
        match group(ms.last(), 1) {
            Some(a) => rest.push((unquoted(a), system_version())),
            None => rest,
        }
    }
}

/// The modules of `PKG_CHECK_MODULES` matches (see `checked_modules`).
pub fn checked_modules_from(ms: &Vec<Vec<Option<String>>>) -> (r: Vec<(String, String)>)
    ensures
        dep_views(r@) == checked_modules(matches_view(ms@)),
{
    let ghost mv = matches_view(ms@);
    let mut out: Vec<(String, String)> = Vec::new();
    let mut i: usize = 0;
    while i < ms.len()
        invariant
            i <= ms@.len(),
            mv == matches_view(ms@),
            dep_views(out@) == checked_modules(mv.take(i as int)),
        decreases ms@.len() - i,
    {
        assert(mv.take(i + 1).drop_last() =~= mv.take(i as int));
        assert(mv[i as int] == groups_view(ms@[i as int]));
        match group_exec(&ms[i], 1) {
            Some(a) => {
                let u = unquoted_exec(a.as_slice());
                let parts = words_exec(u.as_slice());
                if parts.len() > 0 {
                    let v = requirement_version_exec(&parts);
                    let ghost before = dep_views(out@);
                    out.push((from_chars(parts[0].as_slice()), from_chars(v.as_slice())));
                    assert(dep_views(out@) =~= before.push((parts@[0]@, v@)));
                }
            },
            None => {},
        }
        i = i + 1;
    }
    assert(mv.take(mv.len() as int) =~= mv);
    out
}

/// The libraries of `AC_CHECK_LIB` matches (see `checked_libraries`).
pub fn checked_libraries_from(ms: &Vec<Vec<Option<String>>>) -> (r: Vec<(String, String)>)
    ensures
        dep_views(r@) == checked_libraries(matches_view(ms@)),
{
    let ghost mv = matches_view(ms@);
    let mut out: Vec<(String, String)> = Vec::new();
    let mut i: usize = 0;
    while i < ms.len()
        invariant
            i <= ms@.len(),
            mv == matches_view(ms@),
            dep_views(out@) == checked_libraries(mv.take(i as int)),
        decreases ms@.len() - i,
    {
        assert(mv.take(i + 1).drop_last() =~= mv.take(i as int));
        assert(mv[i as int] == groups_view(ms@[i as int]));
        match group_exec(&ms[i], 1) {
            Some(a) => {
                let u = unquoted_exec(a.as_slice());
                push_system(&mut out, u.as_slice());
            },
            None => {},
        }
        i = i + 1;
    }
    assert(mv.take(mv.len() as int) =~= mv);
    out
}

/// The dependencies an autotools configuration (`configure.ac` or
/// `configure.in`) names: the modules of its `PKG_CHECK_MODULES` calls,
/// then the libraries of its `AC_CHECK_LIB` calls.
pub fn parse_autotools_content(content: &str) -> (r: Result<Vec<(String, String)>, String>)
    ensures
        match compile_failure("Failed to compile PKG_CHECK_MODULES regex: "@, pkg_check_pattern()) {
            Some(e) => r matches Err(m) && m@ == e,
            None => match compile_failure(
                "Failed to compile AC_CHECK_LIB regex: "@,
                ac_check_lib_pattern(),
            ) {
                Some(e) => r matches Err(m) && m@ == e,
                None => r matches Ok(v) && dep_views(v@) == checked_modules(
                    regex_captures_iter(pkg_check_pattern(), content@),
                ) + checked_libraries(regex_captures_iter(ac_check_lib_pattern(), content@)),
            },
        },
{
    let modules = match regex_all(r"PKG_CHECK_MODULES\s*\(\s*\w+\s*,\s*([^,\)]+)", content) {
        Err(e) => {
            return Err(prefixed_error("Failed to compile PKG_CHECK_MODULES regex: ", e.as_str()));
        },
        Ok(ms) => checked_modules_from(&ms),
    };
    match regex_all(r"AC_CHECK_LIB\s*\(\s*([^,\)]+)", content) {
        Err(e) => Err(prefixed_error("Failed to compile AC_CHECK_LIB regex: ", e.as_str())),
        Ok(ms) => {
            let mut out = modules;
            let ghost a = dep_views(out@);
            let mut more = checked_libraries_from(&ms);
            let ghost b = dep_views(more@);
            out.append(&mut more);
            assert(dep_views(out@) =~= a + b);
            Ok(out)
        },
    }
}

/// The packages `pkg-config --list-all` prints: the name before the first
/// space of each of its first ten lines, when there is one.
pub open spec fn listed_packages(ls: Seq<Seq<char>>) -> Seq<(Seq<char>, Seq<char>)>
    decreases ls.len(),
{
    if ls.len() == 0 {
        Seq::empty()
    } else {
        let rest = listed_packages(ls.drop_last());
        match find(ls.last(), " "@) {
            Some(p) => if p > 0 {
                rest.push((ls.last().subrange(0, p), system_version()))
            } else {
                rest
            },
            None => rest,
        }
    }
}

/// The packages of `pkg-config --list-all` output (see `listed_packages`).
pub fn pkgconfig_list_packages(output: &str) -> (r: Vec<(String, String)>)
    ensures
        dep_views(r@) == listed_packages(lines(output@).take(
            if lines(output@).len() < 10 { lines(output@).len() as int } else { 10 },
        )),
{
    let oc = to_chars(output);
    let ls = lines_exec(oc.as_slice());
    let ghost lv = seqs(ls@);
    let n: usize = if ls.len() < 10 { ls.len() } else { 10 };
    let mut out: Vec<(String, String)> = Vec::new();
    let mut i: usize = 0;
    while i < n
        invariant
            i <= n <= ls@.len(),
            lv == seqs(ls@),
            dep_views(out@) == listed_packages(lv.take(i as int)),
        decreases n - i,
    {
        assert(lv.take(i + 1).drop_last() =~= lv.take(i as int));
        assert(lv[i as int] == ls@[i as int]@);
        match find_exec(ls[i].as_slice(), to_chars(" ").as_slice()) {
            Some(p) => {
                proof {
                    reveal_strlit(" ");
                    crate::text::lemma_find(ls@[i as int]@, " "@);
                }
                if p > 0 {
                    let name = slice_of(ls[i].as_slice(), 0, p);
                    push_system(&mut out, name.as_slice());
                }
            },
            None => {},
        }
        i = i + 1;
    }
    assert(lv.take(n as int) =~= lv.take(if lv.len() < 10 { lv.len() as int } else { 10 }));
    out
}

/// The license `dpkg-query -f '${Package} ${License}'` reports: what follows
/// the first space of its first line.
pub open spec fn dpkg_license(output: Seq<char>) -> Option<Seq<char>> {
    if lines(output).len() == 0 {
        None
    } else {
        match find(lines(output)[0], " "@) {
            Some(p) => Some(lines(output)[0].subrange(p + 1, lines(output)[0].len() as int)),
            None => None,
        }
    }
}

/// The license `dpkg-query` reports (see `dpkg_license`).
pub fn dpkg_license_from(output: &str) -> (r: Option<String>)
    ensures
        opt_string(r) == dpkg_license(output@),
{
    let oc = to_chars(output);
    let ls = lines_exec(oc.as_slice());
    if ls.len() == 0 {
        return None;
    }
    assert(seqs(ls@)[0] == ls@[0]@);
    match find_exec(ls[0].as_slice(), to_chars(" ").as_slice()) {
        Some(p) => {
            proof {
                reveal_strlit(" ");
                crate::text::lemma_find(ls@[0]@, " "@);
            }
            assert(p < ls[0].len());
            let rest = slice_of(ls[0].as_slice(), p + 1, ls[0].len());
            Some(from_chars(rest.as_slice()))
        },
        None => None,
    }
}

/// The license `rpm -q --qf '%{LICENSE}'` reports: its trimmed output,
/// unless that is empty or `(none)`.
pub open spec fn rpm_license(output: Seq<char>) -> Option<Seq<char>> {
    let t = trim(output);
    if t.len() == 0 || t == "(none)"@ {
        None
    } else {
        Some(t)
    }
}

/// The license `rpm` reports (see `rpm_license`).
pub fn rpm_license_from(output: &str) -> (r: Option<String>)
    ensures
        opt_string(r) == rpm_license(output@),
{
    let oc = to_chars(output);
    let t = trimmed(oc.as_slice());
    if t.len() == 0 || eq_str(t.as_slice(), "(none)") {
        None
    } else {
        Some(from_chars(t.as_slice()))
    }
}

/// The license text recorded when no license could be found for a package.
pub open spec fn unknown_license(name: Seq<char>, version: Seq<char>) -> Seq<char> {
    "Unknown license for "@ + name + ": "@ + version
}

/// The license text recorded when no license could be found for a package.
pub fn unknown_license_text(name: &str, version: &str) -> (r: String)
    ensures
        r@ == unknown_license(name@, version@),
{
    let mut v = to_chars("Unknown license for ");
    extend_str(&mut v, name);
    extend_str(&mut v, ": ");
    extend_str(&mut v, version);
    from_chars(v.as_slice())
}

/// The license information of the resolved C dependencies, each given with
/// the license found for it (see `describes`).
pub fn analyze_c_licenses(
    dependencies: Vec<(String, String, String)>,
    known_licenses: &Vec<(String, License)>,
    osi_licenses: &Vec<(String, OsiStatus)>,
    config: &FeludaConfig,
) -> (r: Vec<LicenseInfo>)
    ensures
        r@.len() == dependencies@.len(),
        forall|k: int|
            0 <= k < dependencies@.len() ==> describes(
                #[trigger] r@[k],
                triple_views(dependencies@)[k],
                known_licenses@,
                osi_licenses@,
                *config,
            ),
{
    dependency_licenses(dependencies, known_licenses, osi_licenses, config)
}

} // verus!
