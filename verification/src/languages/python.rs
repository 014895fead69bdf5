//! Python requirement parsing: `requirements.txt` lines, `pip compile`
//! output, `pyproject.toml` dependency strings and PyPI `requires_dist`
//! entries.

use vstd::prelude::*;

use crate::config::FeludaConfig;
use crate::documents::{
    json_is_valid, json_string, json_string_at, json_string_items, json_string_items_at, json_valid, opt_pairs, opt_strings,
    path1, path2, toml_is_valid, toml_item_fields, toml_item_fields_at, toml_string_items, toml_string_items_at, toml_valid,
};
use crate::licenses::opt_string;
use crate::licenses::{License, LicenseInfo, OsiStatus, dependency_licenses, describes, licensed, triple_views, with_licenses};
use crate::text::{lemma_find_none, lemma_find_unique, occurs_at};
use crate::text::{
    contains, ends_with, ends_with_str, eq_str, find, from_chars, is_ws, lines, lines_exec, pairs, push_pair, replace,
    replace_exec, split, split_exec, split_once, split_once_exec, starts_with, starts_with_str,
    to_chars, trim, trim_char_exec, trim_end_char, trim_end_char_exec, trim_start_char, trimmed,
};

verus! {

/// The first version operator that occurs in a requirement, in the order
/// `==`, `>=`, `>`, `~=`, `<=`, `<`, and the text around it.
pub open spec fn requirement_split(line: Seq<char>) -> Option<(Seq<char>, Seq<char>)> {
    if split_once(line, "=="@) is Some {
        split_once(line, "=="@)
    } else if split_once(line, ">="@) is Some {
        split_once(line, ">="@)
    } else if split_once(line, ">"@) is Some {
        split_once(line, ">"@)
    } else if split_once(line, "~="@) is Some {
        split_once(line, "~="@)
    } else if split_once(line, "<="@) is Some {
        split_once(line, "<="@)
    } else {
        split_once(line, "<"@)
    }
}

/// Whether a text holds none of the characters of the version operators.
pub open spec fn operator_free(s: Seq<char>) -> bool {
    forall|k: int| 0 <= k < s.len() ==> s[k] != '=' && s[k] != '<' && s[k] != '>' && s[k] != '~'
}

/// The version operators of a requirement.
pub open spec fn version_operator(op: Seq<char>) -> bool {
    op == "=="@ || op == ">="@ || op == ">"@ || op == "~="@ || op == "<="@ || op == "<"@
}

/// A requirement written `name`, one version operator, `version`, with no
/// other operator character, is split at that operator: the name is what
/// comes before it and the version what comes after it, so the version
/// never keeps a character of the operator (`numpy<=1.26.0` gives the
/// version `1.26.0`, not `=1.26.0`).
pub proof fn law_requirement_split_at_its_operator(n: Seq<char>, op: Seq<char>, v: Seq<char>)
    requires
        operator_free(n),
        operator_free(v),
        version_operator(op),
    ensures
        requirement_split(n + op + v) == Some((n, v)),
        trim(n + op + v) == n + op + v ==> requirement(n + op + v) == (trim(n), clean_version(v)),
{
    reveal_strlit("==");
    reveal_strlit(">=");
    reveal_strlit(">");
    reveal_strlit("~=");
    reveal_strlit("<=");
    reveal_strlit("<");
    let t = n + op + v;
    let l = n.len() as int;
    let m = op.len() as int;
    assert(t.len() == l + m + v.len());
    assert forall|k: int| 0 <= k < t.len() && (k < l || k >= l + m) implies #[trigger] t[k] != '=' && t[k] != '<'
        && t[k] != '>' && t[k] != '~' by {
        if k < l {
            assert(t[k] == n[k]);
        } else {
            assert(t[k] == v[k - l - m]);
        }
    }
    assert forall|k: int| 0 <= k < m implies #[trigger] t[l + k] == op[k] by {}
    assert(t.subrange(l, l + m) =~= op);
    // No operator tried before `op` occurs anywhere in the line.
    assert("=="@.len() == 2 && ">="@.len() == 2 && "~="@.len() == 2 && "<="@.len() == 2);
    assert(">"@.len() == 1 && "<"@.len() == 1 && ">"@[0] != "<"@[0]);
    assert("=="@[0] != ">="@[0] && "=="@[0] != "~="@[0] && "=="@[0] != "<="@[0]);
    assert(">="@[0] != "~="@[0] && ">="@[0] != "<="@[0] && "~="@[0] != "<="@[0]);
    assert forall|p: Seq<char>, j: int|
        #![trigger occurs_at(t, p, j)]
        version_operator(p) && 0 <= j && occurs_at(t, p, j) implies j == l && (p == op || (p == ">"@ && op == ">="@)
        || (p == "<"@ && op == "<="@)) by {
        assert(t.subrange(j, j + p.len())[0] == t[j]);
        if p.len() == 2 {
            assert(t.subrange(j, j + 2)[1] == t[j + 1]);
        }
    }
    lemma_find_unique(t, op, l);
    if op != "=="@ {
        lemma_find_none(t, "=="@);
    }
    if op != ">="@ && op != "=="@ {
        lemma_find_none(t, ">="@);
    }
    if op != ">"@ && op != ">="@ && op != "=="@ {
        lemma_find_none(t, ">"@);
    }
    if op == "<="@ || op == "<"@ {
        lemma_find_none(t, "~="@);
    }
    if op == "<"@ {
        lemma_find_none(t, "<="@);
    }
    assert(t.subrange(0, l) =~= n);
    assert(t.subrange(l + m, t.len() as int) =~= v);
}

/// The cleaned version of a requirement: trimmed, without surrounding quotes,
/// and without `^` and `~`.
pub open spec fn clean_version(v: Seq<char>) -> Seq<char> {
    replace(
        replace(trim_end_char(trim_start_char(trim(v), '"'), '"'), "^"@, ""@),
        "~"@,
        ""@,
    )
}

/// A requirement line as (name, version); `latest` when no version is given.
pub open spec fn requirement(line: Seq<char>) -> (Seq<char>, Seq<char>) {
    let t = trim(line);
    match requirement_split(t) {
        Some((n, v)) => (trim(n), clean_version(v)),
        None => (t, "latest"@),
    }
}

/// Splits at the first operator of the requirement order.
fn requirement_split_exec(t: &[char]) -> (r: Option<(Vec<char>, Vec<char>)>)
    ensures
        match r {
            Some((a, b)) => requirement_split(t@) == Some((a@, b@)),
            None => requirement_split(t@) is None,
        },
{
    match split_once_exec(t, "==") {
        Some(p) => return Some(p),
        None => {},
    }
    match split_once_exec(t, ">=") {
        Some(p) => return Some(p),
        None => {},
    }
    match split_once_exec(t, ">") {
        Some(p) => return Some(p),
        None => {},
    }
    match split_once_exec(t, "~=") {
        Some(p) => return Some(p),
        None => {},
    }
    match split_once_exec(t, "<=") {
        Some(p) => return Some(p),
        None => {},
    }
    split_once_exec(t, "<")
}

/// Parses one requirement line into (name, version).
fn requirement_exec(line: &[char]) -> (r: (Vec<char>, Vec<char>))
    ensures
        (r.0@, r.1@) == requirement(line@),
{
    let t = trimmed(line);
    match requirement_split_exec(t.as_slice()) {
        Some((n, v)) => {
            let name = trimmed(n.as_slice());
            let v1 = trimmed(v.as_slice());
            let v2 = trim_char_exec(v1.as_slice(), '"');
            proof {
                reveal_strlit("^");
                reveal_strlit("~");
            }
            let v3 = replace_exec(v2.as_slice(), "^", "");
            let v4 = replace_exec(v3.as_slice(), "~", "");
            (name, v4)
        },
        None => (t, to_chars("latest")),
    }
}

/// Parses a requirement line (`name==1.0`, `name>=1.0`, `name`, ...) into its
/// name and version; a line without a version operator gives `latest`.
pub fn parse_requirement_line(line: &str) -> (r: Option<(String, String)>)
    ensures
        r matches Some(p) && (p.0@, p.1@) == requirement(line@),
{
    let c = to_chars(line);
    let (n, v) = requirement_exec(c.as_slice());
    let p = crate::text::pair_of(n.as_slice(), v.as_slice());
    Some(p)
}

/// Whether a trimmed requirements line carries a requirement: not empty and
/// not a comment.
pub open spec fn requirement_bearing(t: Seq<char>) -> bool {
    t.len() > 0 && !starts_with(t, "#"@)
}

/// The requirements of a sequence of lines, in order.
pub open spec fn requirements_of(ls: Seq<Seq<char>>) -> Seq<(Seq<char>, Seq<char>)>
    decreases ls.len(),
{
    if ls.len() == 0 {
        seq![]
    } else {
        requirements_of(ls.drop_last()) + if requirement_bearing(trim(ls.last())) {
            seq![requirement(trim(ls.last()))]
        } else {
            seq![]
        }
    }
}

/// Parses `pip compile` style output (one requirement per line; blank lines
/// and `#` comments skipped) into (name, version) pairs, in order.
pub fn parse_pip_compile_output(output: &str) -> (r: Vec<(String, String)>)
    ensures
        pairs(r@) == requirements_of(lines(output@)),
{
    let c = to_chars(output);
    let ls = lines_exec(c.as_slice());
    let ghost l = crate::text::seqs(ls@);
    let mut out: Vec<(String, String)> = Vec::new();
    let mut i: usize = 0;
    while i < ls.len()
        invariant
            i <= ls@.len(),
            l == crate::text::seqs(ls@),
            l == lines(output@),
            pairs(out@) == requirements_of(l.take(i as int)),
        decreases ls@.len() - i,
    {
        let t = trimmed(ls[i].as_slice());
        assert(l.take(i + 1).drop_last() =~= l.take(i as int));
        assert(l.take(i + 1).last() == ls@[i as int]@);
        if t.len() > 0 && !starts_with_str(t.as_slice(), "#") {
            let (n, v) = requirement_exec(t.as_slice());
            push_pair(&mut out, n.as_slice(), v.as_slice());
        } else {
            assert(pairs(out@) =~= pairs(out@) + Seq::<(Seq<char>, Seq<char>)>::empty());
        }
        i = i + 1;
    }
    assert(l.take(ls@.len() as int) =~= l);
    out
}


/// A version constraint split into its operator and (trimmed) version; the
/// operators are tried in the order `>=`, `<=`, `==`, `~=`, `!=`, `>`, `<`.
pub open spec fn version_constraint(c: Seq<char>) -> Option<(Seq<char>, Seq<char>)> {
    let t = trim(c);
    if starts_with(t, ">="@) {
        Some((">="@, trim(t.subrange(2, t.len() as int))))
    } else if starts_with(t, "<="@) {
        Some(("<="@, trim(t.subrange(2, t.len() as int))))
    } else if starts_with(t, "=="@) {
        Some(("=="@, trim(t.subrange(2, t.len() as int))))
    } else if starts_with(t, "~="@) {
        Some(("~="@, trim(t.subrange(2, t.len() as int))))
    } else if starts_with(t, "!="@) {
        Some(("!="@, trim(t.subrange(2, t.len() as int))))
    } else if starts_with(t, ">"@) {
        Some((">"@, trim(t.subrange(1, t.len() as int))))
    } else if starts_with(t, "<"@) {
        Some(("<"@, trim(t.subrange(1, t.len() as int))))
    } else {
        None
    }
}

/// Splits a version constraint into operator and version.
fn version_constraint_exec(c: &[char]) -> (r: Option<(Vec<char>, Vec<char>)>)
    ensures
        match r {
            Some((a, b)) => version_constraint(c@) == Some((a@, b@)),
            None => version_constraint(c@) is None,
        },
{
    let t = trimmed(c);
    let t = t.as_slice();
    if starts_with_str(t, ">=") {
        proof {
            reveal_strlit(">=");
        }
        let v = crate::text::slice_of(t, 2, t.len());
        Some((to_chars(">="), trimmed(v.as_slice())))
    } else if starts_with_str(t, "<=") {
        proof {
            reveal_strlit("<=");
        }
        let v = crate::text::slice_of(t, 2, t.len());
        Some((to_chars("<="), trimmed(v.as_slice())))
    } else if starts_with_str(t, "==") {
        proof {
            reveal_strlit("==");
        }
        let v = crate::text::slice_of(t, 2, t.len());
        Some((to_chars("=="), trimmed(v.as_slice())))
    } else if starts_with_str(t, "~=") {
        proof {
            reveal_strlit("~=");
        }
        let v = crate::text::slice_of(t, 2, t.len());
        Some((to_chars("~="), trimmed(v.as_slice())))
    } else if starts_with_str(t, "!=") {
        proof {
            reveal_strlit("!=");
        }
        let v = crate::text::slice_of(t, 2, t.len());
        Some((to_chars("!="), trimmed(v.as_slice())))
    } else if starts_with_str(t, ">") {
        proof {
            reveal_strlit(">");
        }
        let v = crate::text::slice_of(t, 1, t.len());
        Some((to_chars(">"), trimmed(v.as_slice())))
    } else if starts_with_str(t, "<") {
        proof {
            reveal_strlit("<");
        }
        let v = crate::text::slice_of(t, 1, t.len());
        Some((to_chars("<"), trimmed(v.as_slice())))
    } else {
        None
    }
}

/// Splits a version constraint (`>=1.0`, `< 2`, ...) into its operator and
/// version.
pub fn parse_version_constraint(constraint: &str) -> (r: Option<(String, String)>)
    ensures
        match r {
            Some(p) => version_constraint(constraint@) == Some((p.0@, p.1@)),
            None => version_constraint(constraint@) is None,
        },
{
    let c = to_chars(constraint);
    match version_constraint_exec(c.as_slice()) {
        Some((a, b)) => Some(crate::text::pair_of(a.as_slice(), b.as_slice())),
        None => None,
    }
}


/// Characters that end a package name in a `requires_dist` entry.
pub open spec fn name_stop(c: char) -> bool {
    c == '>' || c == '=' || c == '<' || c == '!' || c == '~' || c == '(' || c == ')' || is_ws(c)
}

/// Length of the package name at the start of `s`.
pub open spec fn name_len(s: Seq<char>) -> nat
    decreases s.len(),
{
    if s.len() > 0 && !name_stop(s[0]) {
        1 + name_len(s.drop_first())
    } else {
        0
    }
}

/// `s` without leading whitespace and opening parentheses.
pub open spec fn skip_open(s: Seq<char>) -> Seq<char>
    decreases s.len(),
{
    if s.len() > 0 && (is_ws(s[0]) || s[0] == '(') {
        skip_open(s.drop_first())
    } else {
        s
    }
}

/// The version chosen from a list of constraints: the first `>=` or `==`
/// constraint wins; otherwise the first constraint with an operator; `best`
/// otherwise.
pub open spec fn best_version(cs: Seq<Seq<char>>, best: Seq<char>) -> Seq<char>
    decreases cs.len(),
{
    if cs.len() == 0 {
        best
    } else {
        let c = trim(cs[0]);
        match version_constraint(c) {
            Some((_, v)) => if starts_with(c, ">="@) || starts_with(c, "=="@) {
                trim(v)
            } else {
                best_version(cs.drop_first(), if best == "latest"@ { trim(v) } else { best })
            },
            None => best_version(cs.drop_first(), best),
        }
    }
}

/// The part of a `requires_dist` entry before any environment marker.
pub open spec fn requirement_base(req: Seq<char>) -> Seq<char> {
    let t = trim(req);
    match split_once(t, ";"@) {
        Some((b, _)) => trim(b),
        None => t,
    }
}

/// A PyPI `requires_dist` entry as (name, version): the name is the leading
/// run of name characters; the version is chosen from the constraints that
/// follow (see `best_version`), `latest` when there are none. No name, no
/// requirement.
pub open spec fn pypi_requirement(req: Seq<char>) -> Option<(Seq<char>, Seq<char>)> {
    let b = requirement_base(req);
    let k = name_len(b) as int;
    let name = trim(b.take(k));
    let remaining = trim(trim_end_char(skip_open(b.skip(k)), ')'));
    if name.len() == 0 {
        None
    } else if remaining.len() == 0 {
        Some((name, "latest"@))
    } else {
        Some((name, best_version(split(remaining, ','), "latest"@)))
    }
}

/// Whether a character ends a package name.
fn is_name_stop(c: char) -> (r: bool)
    ensures
        r == name_stop(c),
{
    c == '>' || c == '=' || c == '<' || c == '!' || c == '~' || c == '(' || c == ')'
        || crate::text::char_is_ws(c)
}

/// Chooses the version from constraint pieces.
fn best_version_exec(cs: &Vec<Vec<char>>) -> (r: Vec<char>)
    ensures
        r@ == best_version(crate::text::seqs(cs@), "latest"@),
{
    let ghost l = crate::text::seqs(cs@);
    let mut best = to_chars("latest");
    let mut i: usize = 0;
    assert(l.skip(0) =~= l);
    while i < cs.len()
        invariant
            i <= cs@.len(),
            l == crate::text::seqs(cs@),
            best_version(l, "latest"@) == best_version(l.skip(i as int), best@),
        decreases cs@.len() - i,
    {
        assert(l.skip(i as int).drop_first() =~= l.skip(i + 1));
        assert(l.skip(i as int)[0] == cs@[i as int]@);
        let c = trimmed(cs[i].as_slice());
        match version_constraint_exec(c.as_slice()) {
            Some((_, v)) => {
                if starts_with_str(c.as_slice(), ">=") || starts_with_str(c.as_slice(), "==") {
                    return trimmed(v.as_slice());
                } else if eq_str(best.as_slice(), "latest") {
                    best = trimmed(v.as_slice());
                }
            },
            None => {},
        }
        i = i + 1;
    }
    best
}

/// Parses a PyPI `requires_dist` entry (`requests>=2.20.0`,
/// `urllib3 (<3,>=1.21.1)`, `pkg; python_version < '3.8'`) into its name
/// and the version to resolve.
pub fn parse_pypi_requirement(req_str: &str) -> (r: Option<(String, String)>)
    ensures
        match r {
            Some(p) => pypi_requirement(req_str@) == Some((p.0@, p.1@)),
            None => pypi_requirement(req_str@) is None,
        },
{
    let c = to_chars(req_str);
    let t = trimmed(c.as_slice());
    let b = match split_once_exec(t.as_slice(), ";") {
        Some((b, _)) => trimmed(b.as_slice()),
        None => t,
    };
    let mut k: usize = 0;
    assert(b@.skip(0) =~= b@);
    while k < b.len() && !is_name_stop(b[k])
        invariant
            k <= b@.len(),
            name_len(b@) == k + name_len(b@.skip(k as int)),
        decreases b@.len() - k,
    {
        assert(b@.skip(k as int).drop_first() =~= b@.skip(k + 1));
        k = k + 1;
    }
    assert(name_len(b@.skip(k as int)) == 0);
    let n0 = crate::text::slice_of(b.as_slice(), 0, k);
    assert(n0@ =~= b@.take(k as int));
    let name = trimmed(n0.as_slice());
    if name.len() == 0 {
        return None;
    }
    let mut j = k;
    assert(b@.skip(k as int) =~= b@.subrange(k as int, b@.len() as int));
    while j < b.len() && (crate::text::char_is_ws(b[j]) || b[j] == '(')
        invariant
            k <= j <= b@.len(),
            skip_open(b@.skip(k as int)) == skip_open(b@.subrange(j as int, b@.len() as int)),
        decreases b@.len() - j,
    {
        assert(b@.subrange(j as int, b@.len() as int).drop_first() =~= b@.subrange(
            j + 1,
            b@.len() as int,
        ));
        j = j + 1;
    }
    let rest = crate::text::slice_of(b.as_slice(), j, b.len());
    let r1 = trim_end_char_exec(rest.as_slice(), ')');
    let remaining = trimmed(r1.as_slice());
    if remaining.len() == 0 {
        let latest = to_chars("latest");
        return Some(crate::text::pair_of(name.as_slice(), latest.as_slice()));
    }
    let cs = split_exec(remaining.as_slice(), ',');
    let best = best_version_exec(&cs);
    Some(crate::text::pair_of(name.as_slice(), best.as_slice()))
}

/// A `pyproject.toml` dependency string as (name, version): split at the
/// first operator of `requirement_split`, both sides trimmed; the trimmed
/// string at `latest` when there is none.
pub open spec fn pyproject_dep(d: Seq<char>) -> (Seq<char>, Seq<char>) {
    match requirement_split(d) {
        Some((n, v)) => (trim(n), trim(v)),
        None => (trim(d), "latest"@),
    }
}

/// A `pyproject.toml` dependency string as (name, version) (see
/// `pyproject_dep`).
pub fn pyproject_dependency(dep: &str) -> (r: (String, String))
    ensures
        (r.0@, r.1@) == pyproject_dep(dep@),
{
    let d = to_chars(dep);
    match requirement_split_exec(d.as_slice()) {
        Some((n, v)) => {
            let nt = trimmed(n.as_slice());
            let vt = trimmed(v.as_slice());
            crate::text::pair_of(nt.as_slice(), vt.as_slice())
        },
        None => {
            let t = trimmed(d.as_slice());
            (from_chars(t.as_slice()), crate::text::owned("latest"))
        },
    }
}

/// The packages of `uv.lock` entries that give both a name and a version,
/// in order.
pub open spec fn complete_entries(es: Seq<(Option<String>, Option<String>)>) -> Seq<(Seq<char>, Seq<char>)>
    decreases es.len(),
{
    if es.len() == 0 {
        Seq::empty()
    } else {
        let rest = complete_entries(es.drop_last());
        match es.last() {
            (Some(n), Some(v)) => rest.push((n@, v@)),
            _ => rest,
        }
    }
}

/// The packages of `uv.lock` entries that give both a name and a version.
pub fn uv_lock_packages(entries: &Vec<(Option<String>, Option<String>)>) -> (r: Vec<(String, String)>)
    ensures
        pairs(r@) == complete_entries(entries@),
{
    let mut out: Vec<(String, String)> = Vec::new();
    let mut i: usize = 0;
    while i < entries.len()
        invariant
            i <= entries@.len(),
            pairs(out@) == complete_entries(entries@.take(i as int)),
        decreases entries@.len() - i,
    {
        assert(entries@.take(i + 1).drop_last() =~= entries@.take(i as int));
        match &entries[i] {
            (Some(n), Some(v)) => {
                let nc = to_chars(n.as_str());
                let vc = to_chars(v.as_str());
                push_pair(&mut out, nc.as_slice(), vc.as_slice());
            },
            _ => {},
        }
        i = i + 1;
    }
    assert(entries@.take(entries@.len() as int) =~= entries@);
    out
}

/// The `name` and `version` of each `[[package]]` of a `uv.lock` document,
/// or `None` when it does not parse as TOML; a document without a
/// `package` array has none.
pub open spec fn uv_lock_items(content: Seq<char>) -> Option<Seq<(Option<Seq<char>>, Option<Seq<char>>)>> {
    if !toml_valid(content) {
        None
    } else {
        match toml_item_fields(content, seq!["package"@], "name"@, "version"@) {
            Some(v) => Some(v),
            None => Some(seq![]),
        }
    }
}

/// The `name` and `version` of each `[[package]]` of a `uv.lock` document
/// (see `uv_lock_items`).
pub fn uv_lock_entries(content: &str) -> (r: Option<Vec<(Option<String>, Option<String>)>>)
    ensures
        match r {
            Some(v) => uv_lock_items(content@) == Some(opt_pairs(v@)),
            None => uv_lock_items(content@) is None,
        },
{
    if !toml_is_valid(content) {
        return None;
    }
    proof {
        reveal_strlit("package");
        reveal_strlit("name");
        reveal_strlit("version");
    }
    match toml_item_fields_at(content, &path1("package"), "name", "version") {
        Some(v) => Some(v),
        None => {
            let v: Vec<(Option<String>, Option<String>)> = Vec::new();
            assert(opt_pairs(v@) =~= Seq::<(Option<Seq<char>>, Option<Seq<char>>)>::empty());
            Some(v)
        },
    }
}

/// The direct dependencies a Python manifest lists: the `[project]`
/// dependencies of a `pyproject.toml` (see `pyproject_deps`), and the
/// requirement lines of any other file (`requirements.txt` and the like;
/// blank lines and comments give none).
pub open spec fn python_direct(file_name: Seq<char>, content: Seq<char>) -> Seq<(Seq<char>, Seq<char>)> {
    if ends_with(file_name, "pyproject.toml"@) {
        match toml_string_items(content, seq!["project"@, "dependencies"@]) {
            Some(items) => pyproject_deps(items),
            None => seq![],
        }
    } else {
        requirements_of(lines(content))
    }
}

/// The direct dependencies of a Python manifest named `file_name` with text
/// `content` (see `python_direct`).
pub fn python_direct_dependencies(file_name: &str, content: &str) -> (r: Vec<(String, String)>)
    ensures
        pairs(r@) == python_direct(file_name@, content@),
{
    let f = to_chars(file_name);
    if ends_with_str(f.as_slice(), "pyproject.toml") {
        pyproject_dependencies(content)
    } else {
        parse_pip_compile_output(content)
    }
}

/// The dependencies of a Python project: those `uv` resolved when it
/// resolved some, else those of the PyPI walk.
pub fn resolve_python_dependencies(
    uv_resolved: Option<Vec<(String, String)>>,
    pypi_resolved: Vec<(String, String)>,
) -> (r: Vec<(String, String)>)
    ensures
        match uv_resolved {
            Some(u) => if u@.len() > 0 {
                r@ == u@
            } else {
                r@ == pypi_resolved@
            },
            None => r@ == pypi_resolved@,
        },
{
    match uv_resolved {
        Some(u) => if u.len() > 0 {
            u
        } else {
            pypi_resolved
        },
        None => pypi_resolved,
    }
}

/// A dependency: name and version.
pub type Dep = (Seq<char>, Seq<char>);

/// The state of a walk over PyPI dependencies: the packages found (by
/// name), the (name, version) pairs processed, and those waiting with their
/// depths (a stack).
pub struct PypiWalkView {
    pub found: Map<Seq<char>, Seq<char>>,
    pub processed: Seq<Dep>,
    pub pending: Seq<(Seq<char>, Seq<char>, u32)>,
}

/// The pending packages once those already processed or already as deep as
/// allowed are dropped from the top of the stack.
pub open spec fn pypi_skip(p: Seq<(Seq<char>, Seq<char>, u32)>, processed: Seq<Dep>, max_depth: u32) -> Seq<(Seq<char>, Seq<char>, u32)>
    decreases p.len(),
{
    if p.len() == 0 {
        p
    } else if processed.contains((p.last().0, p.last().1)) || p.last().2 >= max_depth {
        pypi_skip(p.drop_last(), processed, max_depth)
    } else {
        p
    }
}

/// The dependencies of a package at `depth` that were not processed yet,
/// waiting one level deeper, in order.
pub open spec fn pypi_push(p: Seq<(Seq<char>, Seq<char>, u32)>, processed: Seq<Dep>, ds: Seq<Dep>, depth: u32) -> Seq<(Seq<char>, Seq<char>, u32)>
    decreases ds.len(),
{
    if ds.len() == 0 {
        p
    } else {
        let q = pypi_push(p, processed, ds.drop_last(), depth);
        if processed.contains(ds.last()) {
            q
        } else {
            q.push((ds.last().0, ds.last().1, (depth + 1) as u32))
        }
    }
}

/// The views of pending packages.
pub open spec fn pending_views(v: Seq<(String, String, u32)>) -> Seq<(Seq<char>, Seq<char>, u32)> {
    v.map_values(|p: (String, String, u32)| (p.0@, p.1@, p.2))
}

/// A walk over the transitive dependencies of Python packages on PyPI, up
/// to a maximum depth; the caller looks up each package's dependencies.
pub struct PypiWalk {
    found: crate::languages::node::DependencyMap,
    processed: Vec<(String, String)>,
    pending: Vec<(String, String, u32)>,
    current: u32,
    max_depth: u32,
}

impl PypiWalk {
    /// The state of the walk.
    pub closed spec fn view(&self) -> PypiWalkView {
        PypiWalkView { found: self.found@, processed: pairs(self.processed@), pending: pending_views(self.pending@) }
    }

    /// The depth of the package last handed out.
    pub closed spec fn current(&self) -> u32 {
        self.current
    }

    /// The maximum depth looked up.
    pub closed spec fn max_depth(&self) -> u32 {
        self.max_depth
    }

    /// The found packages are well kept.
    pub closed spec fn wf(&self) -> bool {
        self.found.wf()
    }

    /// A walk from the direct dependencies, all waiting at depth 0.
    pub fn new(direct: &Vec<(String, String)>, max_depth: u32) -> (w: Self)
        ensures
            w.wf(),
            w.max_depth() == max_depth,
            w.view().found == Map::<Seq<char>, Seq<char>>::empty(),
            w.view().processed.len() == 0,
            w.view().pending == pairs(direct@).map_values(|d: Dep| (d.0, d.1, 0u32)),
    {
        let mut pending: Vec<(String, String, u32)> = Vec::new();
        let mut i: usize = 0;
        while i < direct.len()
            invariant
                i <= direct@.len(),
                pending_views(pending@) == pairs(direct@).take(i as int).map_values(|d: Dep| (d.0, d.1, 0u32)),
            decreases direct@.len() - i,
        {
            let ghost before = pending_views(pending@);
            let n = crate::text::owned(direct[i].0.as_str());
            let v = crate::text::owned(direct[i].1.as_str());
            pending.push((n, v, 0));
            assert(pending_views(pending@) =~= before.push((direct@[i as int].0@, direct@[i as int].1@, 0u32)));
            assert(pairs(direct@).take(i + 1).map_values(|d: Dep| (d.0, d.1, 0u32)) =~= pairs(direct@).take(
                i as int,
            ).map_values(|d: Dep| (d.0, d.1, 0u32)).push((direct@[i as int].0@, direct@[i as int].1@, 0u32)));
            i = i + 1;
        }
        assert(pairs(direct@).take(direct@.len() as int) =~= pairs(direct@));
        let w = PypiWalk {
            found: crate::languages::node::DependencyMap::new(),
            processed: Vec::new(),
            pending,
            current: 0,
            max_depth,
        };
        assert(pairs(w.processed@) =~= Seq::<Dep>::empty());
        w
    }

    /// Whether a (name, version) pair was processed.
    fn was_processed(&self, name: &str, version: &str) -> (r: bool)
        ensures
            r == self.view().processed.contains((name@, version@)),
    {
        let nc = to_chars(name);
        let vc = to_chars(version);
        let mut i: usize = 0;
        while i < self.processed.len()
            invariant
                i <= self.processed@.len(),
                nc@ == name@,
                vc@ == version@,
                forall|k: int| 0 <= k < i ==> #[trigger] pairs(self.processed@)[k] != (name@, version@),
            decreases self.processed@.len() - i,
        {
            if eq_str(nc.as_slice(), self.processed[i].0.as_str()) && eq_str(vc.as_slice(), self.processed[i].1.as_str()) {
                assert(pairs(self.processed@)[i as int] == (name@, version@));
                return true;
            }
            i = i + 1;
        }
        false
    }

    /// The next package whose dependencies are to be looked up: processed
    /// or too deep packages are dropped from the top of the stack; the next
    /// one is processed, found, and handed out. `None` when none is left.
    pub fn next_request(&mut self) -> (r: Option<(String, String)>)
        requires
            old(self).wf(),
        ensures
            final(self).wf(),
            final(self).max_depth() == old(self).max_depth(),
            ({
                let q = pypi_skip(old(self).view().pending, old(self).view().processed, old(self).max_depth());
                if q.len() == 0 {
                    r is None && final(self).view().pending == q && final(self).view().found
                        == old(self).view().found && final(self).view().processed == old(
                        self,
                    ).view().processed
                } else {
                    r matches Some(p) && p.0@ == q.last().0 && p.1@ == q.last().1
                        && final(self).view().pending == q.drop_last() && final(self).view().found
                        == old(self).view().found.insert(q.last().0, q.last().1)
                        && final(self).view().processed == old(self).view().processed.push(
                        (q.last().0, q.last().1),
                    ) && final(self).current() == q.last().2 && final(self).current()
                        < final(self).max_depth()
                }
            }),
    {
        loop
            invariant
                self.wf(),
                self.max_depth == old(self).max_depth,
                self.view().found == old(self).view().found,
                self.view().processed == old(self).view().processed,
                pypi_skip(self.view().pending, self.view().processed, self.max_depth) == pypi_skip(
                    old(self).view().pending,
                    old(self).view().processed,
                    old(self).max_depth(),
                ),
            decreases self.pending@.len(),
        {
            let ghost before = self.view().pending;
            match self.pending.pop() {
                None => {
                    assert(before.len() == 0);
                    return None;
                },
                Some((name, version, depth)) => {
                    assert(before.drop_last() =~= self.view().pending);
                    assert(before.last() == (name@, version@, depth));
                    if !self.was_processed(name.as_str(), version.as_str()) && depth < self.max_depth {
                        let ghost pv = pairs(self.processed@);
                        self.processed.push((crate::text::owned(name.as_str()), crate::text::owned(version.as_str())));
                        assert(pairs(self.processed@) =~= pv.push((name@, version@)));
                        self.found.insert(crate::text::owned(name.as_str()), crate::text::owned(version.as_str()));
                        self.current = depth;
                        return Some((name, version));
                    }
                },
            }
        }
    }

    /// Records the dependencies found for the package last handed out: those
    /// not processed yet wait one level deeper.
    pub fn record(&mut self, transitive: Vec<(String, String)>)
        requires
            old(self).wf(),
            old(self).current() < old(self).max_depth(),
        ensures
            final(self).wf(),
            final(self).max_depth() == old(self).max_depth(),
            final(self).current() == old(self).current(),
            final(self).view().found == old(self).view().found,
            final(self).view().processed == old(self).view().processed,
            final(self).view().pending == pypi_push(
                old(self).view().pending,
                old(self).view().processed,
                pairs(transitive@),
                old(self).current(),
            ),
    {
        let ghost ts = pairs(transitive@);
        let depth = self.current + 1;
        let n = transitive.len();
        let mut k: usize = 0;
        for t in it: transitive.into_iter()
            invariant
                ts == it.seq().map_values(|p: (String, String)| (p.0@, p.1@)),
                ts.len() == n,
                k == it.index(),
                self.wf(),
                self.current == old(self).current,
                self.max_depth == old(self).max_depth,
                depth == self.current + 1,
                self.view().found == old(self).view().found,
                self.view().processed == old(self).view().processed,
                self.view().pending == pypi_push(
                    old(self).view().pending,
                    old(self).view().processed,
                    ts.take(k as int),
                    self.current,
                ),
        {
            assert(k < n);
            let (name, version) = t;
            assert(ts.take(k + 1).drop_last() =~= ts.take(k as int));
            assert(ts[k as int] == (name@, version@));
            if !self.was_processed(name.as_str(), version.as_str()) {
                let ghost before = self.view().pending;
                self.pending.push((name, version, depth));
                assert(self.view().pending =~= before.push((ts[k as int].0, ts[k as int].1, depth)));
            }
            k = k + 1;
        }
        assert(ts.take(ts.len() as int) =~= ts);
    }

    /// The packages found, each name once, with the last version processed
    /// under it.
    pub fn finish(self) -> (r: Vec<(String, String)>)
        requires
            self.wf(),
        ensures
            crate::languages::node::map_of(pairs(r@)) == self.view().found,
    {
        let r = self.found.into_entries();
        assert(pairs(r@) =~= crate::languages::node::entry_views(r@));
        r
    }
}

/// The view of an optional list of pairs.
pub open spec fn opt_pair_views(o: Option<Vec<(String, String)>>) -> Option<Seq<(Seq<char>, Seq<char>)>> {
    match o {
        Some(v) => Some(pairs(v@)),
        None => None,
    }
}

/// The packages of a Python project: what the resolver found (uv, or the
/// PyPI walk from the direct dependencies) when it found any, else the
/// direct dependencies of its manifest (see `python_direct`).
pub open spec fn python_packages(
    file_name: Seq<char>,
    content: Seq<char>,
    resolved: Option<Seq<(Seq<char>, Seq<char>)>>,
) -> Seq<(Seq<char>, Seq<char>)> {
    match resolved {
        Some(r) => if r.len() > 0 {
            r
        } else {
            python_direct(file_name, content)
        },
        None => python_direct(file_name, content),
    }
}

/// Every line of a text is blank or a comment.
pub open spec fn comments_only(content: Seq<char>) -> bool {
    forall|i: int| 0 <= i < lines(content).len() ==> !requirement_bearing(trim(#[trigger] lines(content)[i]))
}

/// Lines that are all blank or comments carry no requirement.
proof fn lemma_no_requirements(ls: Seq<Seq<char>>)
    requires
        forall|i: int| 0 <= i < ls.len() ==> !requirement_bearing(trim(#[trigger] ls[i])),
    ensures
        requirements_of(ls) == Seq::<(Seq<char>, Seq<char>)>::empty(),
    decreases ls.len(),
{
    if ls.len() > 0 {
        let l = ls.drop_last();
        assert forall|i: int| 0 <= i < l.len() implies !requirement_bearing(trim(#[trigger] l[i])) by {
            assert(l[i] == ls[i]);
        }
        lemma_no_requirements(l);
        assert(!requirement_bearing(trim(ls[ls.len() - 1])));
        assert(requirements_of(ls) =~= Seq::<(Seq<char>, Seq<char>)>::empty());
    }
}

/// The license information of a Python project, given its manifest's name
/// and text, what the resolver found (`None` when it found nothing) and the
/// licenses looked up for the packages: its packages (see `python_packages`),
/// each with the license the table gives it (see `licensed`, `describes`).
/// A requirements file of only blank lines and comments, with nothing
/// resolved, gives no dependency.
pub fn analyze_python_licenses(
    file_name: &str,
    content: &str,
    resolved: Option<Vec<(String, String)>>,
    licenses: &Vec<(String, String, String)>,
    known_licenses: &Vec<(String, License)>,
    osi_licenses: &Vec<(String, OsiStatus)>,
    config: &FeludaConfig,
) -> (r: Vec<LicenseInfo>)
    ensures
        r@.len() == python_packages(file_name@, content@, opt_pair_views(resolved)).len(),
        forall|k: int|
            0 <= k < r@.len() ==> describes(
                #[trigger] r@[k],
                licensed(python_packages(file_name@, content@, opt_pair_views(resolved)), triple_views(licenses@))[k],
                known_licenses@,
                osi_licenses@,
                *config,
            ),
        !ends_with(file_name@, "pyproject.toml"@) && comments_only(content@) && (resolved matches Some(v)
            ==> v@.len() == 0) ==> r@.len() == 0,
{
    let ghost rv = opt_pair_views(resolved);
    let packages = match resolved {
        Some(v) => if v.len() > 0 {
            v
        } else {
            python_direct_dependencies(file_name, content)
        },
        None => python_direct_dependencies(file_name, content),
    };
    assert(pairs(packages@) == python_packages(file_name@, content@, rv));
    proof {
        if !ends_with(file_name@, "pyproject.toml"@) && comments_only(content@) {
            lemma_no_requirements(lines(content@));
        }
    }
    let triples = with_licenses(&packages, licenses);
    assert(triple_views(triples@).len() == triples@.len());
    dependency_licenses(triples, known_licenses, osi_licenses, config)
}

/// The dependencies of a `pyproject.toml`: the string items of the
/// `dependencies` of its `[project]` table, as (name, version) (see
/// `pyproject_dep`), in order; none without such a list.
pub open spec fn pyproject_deps(items: Seq<Option<Seq<char>>>) -> Seq<(Seq<char>, Seq<char>)>
    decreases items.len(),
{
    if items.len() == 0 {
        seq![]
    } else {
        let rest = pyproject_deps(items.drop_last());
        match items.last() {
            Some(d) => rest.push(pyproject_dep(d)),
            None => rest,
        }
    }
}

/// The direct dependencies a `pyproject.toml` lists (see `pyproject_deps`).
pub fn pyproject_dependencies(content: &str) -> (r: Vec<(String, String)>)
    ensures
        pairs(r@) == match toml_string_items(content@, seq!["project"@, "dependencies"@]) {
            Some(items) => pyproject_deps(items),
            None => seq![],
        },
{
    let mut out: Vec<(String, String)> = Vec::new();
    let items = match toml_string_items_at(content, &path2("project", "dependencies")) {
        Some(v) => v,
        None => {
            assert(pairs(out@) =~= Seq::<(Seq<char>, Seq<char>)>::empty());
            return out;
        },
    };
    let ghost iv = opt_strings(items@);
    let mut i: usize = 0;
    while i < items.len()
        invariant
            i <= items@.len(),
            iv == opt_strings(items@),
            pairs(out@) == pyproject_deps(iv.take(i as int)),
        decreases items@.len() - i,
    {
        assert(iv.take(i + 1).drop_last() =~= iv.take(i as int));
        assert(iv[i as int] == opt_string(items@[i as int]));
        match &items[i] {
            Some(d) => {
                let ghost before = pairs(out@);
                let p = pyproject_dependency(d.as_str());
                let ghost pv = (p.0@, p.1@);
                out.push(p);
                assert(pairs(out@) =~= before.push(pv));
            },
            None => {},
        }
        i = i + 1;
    }
    assert(iv.take(iv.len() as int) =~= iv);
    out
}

/// The PyPI metadata document of a release.
pub open spec fn pypi_url(name: Seq<char>, version: Seq<char>) -> Seq<char> {
    "https://pypi.org/pypi/"@ + name + "/"@ + version + "/json"@
}

/// The PyPI metadata document of a release (see `pypi_url`).
pub fn pypi_metadata_url(name: &str, version: &str) -> (r: String)
    ensures
        r@ == pypi_url(name@, version@),
{
    let mut v = to_chars("https://pypi.org/pypi/");
    crate::text::extend_str(&mut v, name);
    crate::text::extend_str(&mut v, "/");
    crate::text::extend_str(&mut v, version);
    crate::text::extend_str(&mut v, "/json");
    from_chars(v.as_slice())
}

/// The license reported for a package whose metadata names none.
pub open spec fn unknown_for(name: Seq<char>, version: Seq<char>) -> Seq<char> {
    "Unknown license for "@ + name + ": "@ + version
}

/// The license reported for a package whose metadata names none (see
/// `unknown_for`).
pub fn unknown_license_for(name: &str, version: &str) -> (r: String)
    ensures
        r@ == unknown_for(name@, version@),
{
    let mut v = to_chars("Unknown license for ");
    crate::text::extend_str(&mut v, name);
    crate::text::extend_str(&mut v, ": ");
    crate::text::extend_str(&mut v, version);
    from_chars(v.as_slice())
}

/// The license of a release from its PyPI metadata (`None` when it could not
/// be fetched): `Unknown` without a JSON document, its `info`.`license`
/// when not empty, else `unknown_for`.
pub open spec fn pypi_license(name: Seq<char>, version: Seq<char>, body: Option<Seq<char>>) -> Seq<char> {
    match body {
        Some(b) => if !json_valid(b) {
            "Unknown"@
        } else {
            match json_string(b, seq!["info"@, "license"@]) {
                Some(l) => if l.len() > 0 {
                    l
                } else {
                    unknown_for(name, version)
                },
                None => unknown_for(name, version),
            }
        },
        None => "Unknown"@,
    }
}

/// The license of a release from its PyPI metadata (see `pypi_license`).
pub fn python_license_from_metadata(name: &str, version: &str, body: Option<&str>) -> (r: String)
    ensures
        r@ == pypi_license(name@, version@, crate::licenses::opt_str(body)),
{
    match body {
        Some(b) => if !json_is_valid(b) {
            crate::text::owned("Unknown")
        } else {
            match json_string_at(b, &path2("info", "license")) {
                Some(l) => {
                    let lc = to_chars(l.as_str());
                    if lc.len() > 0 {
                        l
                    } else {
                        unknown_license_for(name, version)
                    }
                },
                None => unknown_license_for(name, version),
            }
        },
        None => crate::text::owned("Unknown"),
    }
}

/// The requirements a list of `requires_dist` entries names, in order: each
/// string entry that `pypi_requirement` reads.
pub open spec fn requires_dist_deps(items: Seq<Option<Seq<char>>>) -> Seq<(Seq<char>, Seq<char>)>
    decreases items.len(),
{
    if items.len() == 0 {
        seq![]
    } else {
        let rest = requires_dist_deps(items.drop_last());
        match items.last() {
            Some(r) => match pypi_requirement(r) {
                Some(d) => rest.push(d),
                None => rest,
            },
            None => rest,
        }
    }
}

/// The dependencies a release's PyPI metadata lists in its
/// `info`.`requires_dist` (see `requires_dist_deps`); none without such a
/// list.
pub fn pypi_dependencies(body: &str) -> (r: Vec<(String, String)>)
    ensures
        pairs(r@) == match json_string_items(body@, seq!["info"@, "requires_dist"@]) {
            Some(items) => requires_dist_deps(items),
            None => seq![],
        },
{
    let mut out: Vec<(String, String)> = Vec::new();
    let items = match json_string_items_at(body, &path2("info", "requires_dist")) {
        Some(v) => v,
        None => {
            assert(pairs(out@) =~= Seq::<(Seq<char>, Seq<char>)>::empty());
            return out;
        },
    };
    let ghost iv = opt_strings(items@);
    let mut i: usize = 0;
    while i < items.len()
        invariant
            i <= items@.len(),
            iv == opt_strings(items@),
            pairs(out@) == requires_dist_deps(iv.take(i as int)),
        decreases items@.len() - i,
    {
        assert(iv.take(i + 1).drop_last() =~= iv.take(i as int));
        assert(iv[i as int] == opt_string(items@[i as int]));
        match &items[i] {
            Some(d) => match parse_pypi_requirement(d.as_str()) {
                Some(p) => {
                    let ghost before = pairs(out@);
                    let ghost pv = (p.0@, p.1@);
                    out.push(p);
                    assert(pairs(out@) =~= before.push(pv));
                },
                None => {},
            },
            None => {},
        }
        i = i + 1;
    }
    assert(iv.take(iv.len() as int) =~= iv);
    out
}

} // verus!
