//! Node.js dependencies: the lines, lockfile entries and store directory
//! names that package managers print or leave behind, and the order in
//! which a pnpm project's dependency sources are consulted.

use vstd::prelude::*;

use crate::config::FeludaConfig;
use crate::licenses::{License, LicenseInfo, OsiStatus, dependency_licenses, describes, triple_views};
use crate::text::{
    contains, contains_str, find, find_exec, from_chars, replace, replace_exec, rfind, rfind_exec,
    slice_of, split, split_exec, split_once, split_once_exec, starts_with, starts_with_str,
    to_chars, trim, trim_start_char, trimmed, words, words_exec, eq_str, owned,
};

verus! {

/// `str::trim_start_matches(p)` for a text pattern: `p` removed from the
/// start as often as it occurs there.
pub open spec fn trim_start_str(s: Seq<char>, p: Seq<char>) -> Seq<char>
    decreases s.len(),
{
    if p.len() > 0 && starts_with(s, p) {
        trim_start_str(s.subrange(p.len() as int, s.len() as int), p)
    } else {
        s
    }
}

/// `str::trim_start_matches(p)` on characters.
pub(crate) fn trim_start_str_exec(s: &[char], p: &str) -> (r: Vec<char>)
    ensures
        r@ == trim_start_str(s@, p@),
{
    let pc = to_chars(p);
    let mut k: usize = 0;
    assert(s@.subrange(0, s@.len() as int) =~= s@);
    while pc.len() > 0 && pc.len() <= s.len() - k && crate::text::occurs_at_exec(s, pc.as_slice(), k)
        invariant
            k <= s@.len(),
            pc@ == p@,
            trim_start_str(s@, p@) == trim_start_str(s@.subrange(k as int, s@.len() as int), p@),
        decreases s@.len() - k,
    {
        let ghost t = s@.subrange(k as int, s@.len() as int);
        assert(t.subrange(0, p@.len() as int) =~= s@.subrange(k as int, k + p@.len()));
        assert(t.subrange(p@.len() as int, t.len() as int) =~= s@.subrange(k + p@.len(), s@.len() as int));
        k = k + pc.len();
    }
    proof {
        let t = s@.subrange(k as int, s@.len() as int);
        if p@.len() > 0 && starts_with(t, p@) {
            assert(t.subrange(0, p@.len() as int) =~= s@.subrange(k as int, k + p@.len()));
        }
    }
    slice_of(s, k, s.len())
}

/// `str::trim_start_matches(c)` on characters.
fn trim_start_char_exec(s: &[char], c: char) -> (r: Vec<char>)
    ensures
        r@ == trim_start_char(s@, c),
{
    let mut k: usize = 0;
    assert(s@.subrange(0, s@.len() as int) =~= s@);
    while k < s.len() && s[k] == c
        invariant
            k <= s@.len(),
            trim_start_char(s@, c) == trim_start_char(s@.subrange(k as int, s@.len() as int), c),
        decreases s@.len() - k,
    {
        assert(s@.subrange(k as int, s@.len() as int).drop_first() =~= s@.subrange(k + 1, s@.len() as int));
        k = k + 1;
    }
    slice_of(s, k, s.len())
}

/// Whether a text starts with an ASCII digit.
pub open spec fn starts_with_digit(s: Seq<char>) -> bool {
    s.len() > 0 && '0' <= s[0] && s[0] <= '9'
}

/// Whether a text starts with an ASCII digit.
pub(crate) fn starts_with_digit_exec(s: &[char]) -> (r: bool)
    ensures
        r == starts_with_digit(s@),
{
    s.len() > 0 && '0' <= s[0] && s[0] <= '9'
}

/// A version requirement without its comparison operators: leading `^`,
/// `~`, `>=`, `>`, `<=`, `<` and `=` are removed (in that order), and the
/// first word of what remains is kept; the requirement itself when nothing
/// remains.
pub open spec fn clean_version(v: Seq<char>) -> Seq<char> {
    let s = trim_start_char(
        trim_start_char(
            trim_start_str(
                trim_start_char(
                    trim_start_str(trim_start_char(trim_start_char(v, '^'), '~'), ">="@),
                    '>',
                ),
                "<="@,
            ),
            '<',
        ),
        '=',
    );
    if words(s).len() > 0 {
        words(s)[0]
    } else {
        v
    }
}

/// A version requirement without its operators (see `clean_version`).
pub fn clean_version_string(version: &str) -> (r: String)
    ensures
        r@ == clean_version(version@),
{
    let v = to_chars(version);
    let a = trim_start_char_exec(v.as_slice(), '^');
    let b = trim_start_char_exec(a.as_slice(), '~');
    let c = trim_start_str_exec(b.as_slice(), ">=");
    let d = trim_start_char_exec(c.as_slice(), '>');
    let e = trim_start_str_exec(d.as_slice(), "<=");
    let f = trim_start_char_exec(e.as_slice(), '<');
    let g = trim_start_char_exec(f.as_slice(), '=');
    let ws = words_exec(g.as_slice());
    if ws.len() > 0 {
        assert(crate::text::seqs(ws@)[0] == ws@[0]@);
        from_chars(ws[0].as_slice())
    } else {
        owned(version)
    }
}

/// A tree line without its drawing: leading `├── `, `└── ` and `│   `
/// removed (in that order).
pub open spec fn untreed(line: Seq<char>) -> Seq<char> {
    trim_start_str(trim_start_str(trim_start_str(trim(line), "├── "@), "└── "@), "│   "@)
}

/// A tree line without its drawing (see `untreed`).
fn untreed_exec(line: &[char]) -> (r: Vec<char>)
    ensures
        r@ == untreed(line@),
{
    let t = trimmed(line);
    let a = trim_start_str_exec(t.as_slice(), "├── ");
    let b = trim_start_str_exec(a.as_slice(), "└── ");
    trim_start_str_exec(b.as_slice(), "│   ")
}

/// The package of `name@version`, split at the last `@`, when the version
/// starts with a digit.
pub open spec fn at_version(s: Seq<char>) -> Option<(Seq<char>, Seq<char>)> {
    match rfind(s, '@') {
        Some(i) => {
            let v = s.subrange(i + 1, s.len() as int);
            if starts_with_digit(v) {
                Some((s.subrange(0, i), v))
            } else {
                None
            }
        },
        None => None,
    }
}

/// The package of `name@version` (see `at_version`).
fn at_version_exec(s: &[char]) -> (r: Option<(String, String)>)
    ensures
        match at_version(s@) {
            Some(p) => r matches Some(x) && x.0@ == p.0 && x.1@ == p.1,
            None => r is None,
        },
{
    match rfind_exec(s, '@') {
        Some(i) => {
            assert(i < s.len());
            let v = slice_of(s, i + 1, s.len());
            if starts_with_digit_exec(v.as_slice()) {
                let n = slice_of(s, 0, i);
                Some((from_chars(n.as_slice()), from_chars(v.as_slice())))
            } else {
                None
            }
        },
        None => None,
    }
}

/// The package a line of `npm ls` style output names: the line without its
/// tree drawing (and a leading indentation of four spaces), split at its
/// last `@`, when the version starts with a digit.
pub open spec fn dependency_line(line: Seq<char>) -> Option<(Seq<char>, Seq<char>)> {
    at_version(trim_start_str(untreed(line), "    "@))
}

/// The package a line of `npm ls` style output names (see
/// `dependency_line`).
pub fn parse_dependency_line(line: &str) -> (r: Option<(String, String)>)
    ensures
        match dependency_line(line@) {
            Some(p) => r matches Some(x) && x.0@ == p.0 && x.1@ == p.1,
            None => r is None,
        },
{
    let lc = to_chars(line);
    let u = untreed_exec(lc.as_slice());
    let c = trim_start_str_exec(u.as_slice(), "    ");
    at_version_exec(c.as_slice())
}

/// The package a line of `pnpm list` tree output names: its first two words
/// once the tree drawing is removed, when the second starts with a digit.
pub open spec fn pnpm_tree_line(line: Seq<char>) -> Option<(Seq<char>, Seq<char>)> {
    let parts = words(untreed(line));
    if parts.len() >= 2 && starts_with_digit(parts[1]) {
        Some((parts[0], parts[1]))
    } else {
        None
    }
}

/// The package a line of `pnpm list` tree output names (see
/// `pnpm_tree_line`).
pub fn parse_pnpm_tree_line(line: &str) -> (r: Option<(String, String)>)
    ensures
        match pnpm_tree_line(line@) {
            Some(p) => r matches Some(x) && x.0@ == p.0 && x.1@ == p.1,
            None => r is None,
        },
{
    let lc = to_chars(line);
    let u = untreed_exec(lc.as_slice());
    let parts = words_exec(u.as_slice());
    assert(crate::text::seqs(parts@).len() == parts@.len());
    if parts.len() >= 2 && starts_with_digit_exec(parts[1].as_slice()) {
        assert(crate::text::seqs(parts@)[0] == parts@[0]@);
        assert(crate::text::seqs(parts@)[1] == parts@[1]@);
        Some((from_chars(parts[0].as_slice()), from_chars(parts[1].as_slice())))
    } else {
        assert(parts@.len() >= 2 ==> crate::text::seqs(parts@)[1] == parts@[1]@);
        None
    }
}

/// The package of a pnpm lockfile package key: what precedes any `(` and
/// then any `_`, split at its last `@`, when the version starts with a
/// digit.
pub open spec fn pnpm_package_entry(info: Seq<char>) -> Option<(Seq<char>, Seq<char>)> {
    at_version(split(split(info, '(')[0], '_')[0])
}

/// The package of a pnpm lockfile package key (see `pnpm_package_entry`).
pub fn parse_pnpm_package_entry(pkg_info: &str) -> (r: Option<(String, String)>)
    ensures
        match pnpm_package_entry(pkg_info@) {
            Some(p) => r matches Some(x) && x.0@ == p.0 && x.1@ == p.1,
            None => r is None,
        },
{
    let ic = to_chars(pkg_info);
    let a = split_exec(ic.as_slice(), '(');
    proof {
        crate::text::lemma_split_acc_nonempty(pkg_info@, '(', seq![]);
    }
    let b = split_exec(a[0].as_slice(), '_');
    proof {
        crate::text::lemma_split_acc_nonempty(a@[0]@, '_', seq![]);
    }
    at_version_exec(b[0].as_slice())
}

/// The package a `name: version` line of a lockfile names: not a
/// `resolution:` line; split at the first `:`, both sides trimmed and
/// non-empty; the name without a `/` unless it is scoped (`@...`); the
/// version starting with a digit.
pub open spec fn lockfile_line(line: Seq<char>) -> Option<(Seq<char>, Seq<char>)> {
    if contains(line, "resolution:"@) {
        None
    } else {
        match find(line, ":"@) {
            Some(i) => {
                let name = trim(line.subrange(0, i));
                let version = trim(line.subrange(i + 1, line.len() as int));
                if name.len() == 0 || version.len() == 0 {
                    None
                } else if contains(name, "/"@) && !starts_with(name, "@"@) {
                    None
                } else if starts_with_digit(version) {
                    Some((name, version))
                } else {
                    None
                }
            },
            None => None,
        }
    }
}

/// The package a `name: version` lockfile line names (see
/// `lockfile_line`).
pub fn extract_package_from_lockfile_line(line: &str) -> (r: Option<(String, String)>)
    ensures
        match lockfile_line(line@) {
            Some(p) => r matches Some(x) && x.0@ == p.0 && x.1@ == p.1,
            None => r is None,
        },
{
    let lc = to_chars(line);
    if contains_str(lc.as_slice(), "resolution:") {
        return None;
    }
    match find_exec(lc.as_slice(), to_chars(":").as_slice()) {
        Some(i) => {
            proof {
                reveal_strlit(":");
                crate::text::lemma_find(line@, ":"@);
            }
            assert(i < lc.len());
            let n0 = slice_of(lc.as_slice(), 0, i);
            let v0 = slice_of(lc.as_slice(), i + 1, lc.len());
            let name = trimmed(n0.as_slice());
            let version = trimmed(v0.as_slice());
            if name.len() == 0 || version.len() == 0 {
                None
            } else if contains_str(name.as_slice(), "/") && !starts_with_str(name.as_slice(), "@") {
                None
            } else if starts_with_digit_exec(version.as_slice()) {
                Some((from_chars(name.as_slice()), from_chars(version.as_slice())))
            } else {
                None
            }
        },
        None => None,
    }
}

/// The package of a `name@version` with `+` standing for `/` (a pnpm store
/// directory name before its `_` suffix), split at the last `@`.
pub open spec fn store_entry(s: Seq<char>) -> Option<(Seq<char>, Seq<char>)> {
    at_version(replace(s, "+"@, "/"@))
}

/// The package of a pnpm virtual store directory `name@version_hash`, with
/// `+` standing for `/` in the name.
pub open spec fn virtual_store_entry(dir: Seq<char>) -> Option<(Seq<char>, Seq<char>)> {
    match split_once(dir, "_"@) {
        Some((pkg, _)) => store_entry(pkg),
        None => None,
    }
}

/// The package of a pnpm store directory name: as a virtual store entry
/// when it is one; otherwise `name@version` split at the last `@`, with `+`
/// standing for `/` in the name.
pub open spec fn pnpm_directory(dir: Seq<char>) -> Option<(Seq<char>, Seq<char>)> {
    match virtual_store_entry(dir) {
        Some(p) => Some(p),
        None => match at_version(dir) {
            Some((n, v)) => Some((replace(n, "+"@, "/"@), v)),
            None => None,
        },
    }
}

/// The package of a pnpm virtual store directory (see
/// `virtual_store_entry`).
pub fn parse_pnpm_virtual_store_entry(dir_name: &str) -> (r: Option<(String, String)>)
    ensures
        match virtual_store_entry(dir_name@) {
            Some(p) => r matches Some(x) && x.0@ == p.0 && x.1@ == p.1,
            None => r is None,
        },
{
    let dc = to_chars(dir_name);
    match split_once_exec(dc.as_slice(), "_") {
        Some((pkg, _)) => {
            proof {
                reveal_strlit("+");
            }
            let slashed = replace_exec(pkg.as_slice(), "+", "/");
            at_version_exec(slashed.as_slice())
        },
        None => None,
    }
}

/// The package of a pnpm store directory name (see `pnpm_directory`).
pub fn parse_any_pnpm_directory_name(dir_name: &str) -> (r: Option<(String, String)>)
    ensures
        match pnpm_directory(dir_name@) {
            Some(p) => r matches Some(x) && x.0@ == p.0 && x.1@ == p.1,
            None => r is None,
        },
{
    match parse_pnpm_virtual_store_entry(dir_name) {
        Some(p) => Some(p),
        None => {
            let dc = to_chars(dir_name);
            match at_version_exec(dc.as_slice()) {
                Some((n, v)) => {
                    let nc = to_chars(n.as_str());
                    proof {
                        reveal_strlit("+");
                    }
                    let slashed = replace_exec(nc.as_slice(), "+", "/");
                    Some((from_chars(slashed.as_slice()), v))
                },
                None => None,
            }
        },
    }
}

/// The mapping of package names to versions that a list of entries makes,
/// later entries overriding earlier ones.
pub open spec fn map_of(s: Seq<(Seq<char>, Seq<char>)>) -> Map<Seq<char>, Seq<char>>
    decreases s.len(),
{
    if s.len() == 0 {
        Map::empty()
    } else {
        map_of(s.drop_last()).insert(s.last().0, s.last().1)
    }
}

/// No name occurs twice among the entries.
pub open spec fn distinct_names(s: Seq<(Seq<char>, Seq<char>)>) -> bool {
    forall|i: int, j: int| #![trigger s[i], s[j]] 0 <= i < j < s.len() ==> s[i].0 != s[j].0
}

/// The names the entries map are exactly their names.
proof fn lemma_map_of_dom(s: Seq<(Seq<char>, Seq<char>)>, k: Seq<char>)
    ensures
        map_of(s).dom().contains(k) <==> exists|i: int| 0 <= i < s.len() && s[i].0 == k,
    decreases s.len(),
{
    if s.len() > 0 {
        lemma_map_of_dom(s.drop_last(), k);
        if exists|i: int| 0 <= i < s.drop_last().len() && s.drop_last()[i].0 == k {
            let i = choose|i: int| 0 <= i < s.drop_last().len() && s.drop_last()[i].0 == k;
            assert(s[i].0 == k);
        }
        if exists|i: int| 0 <= i < s.len() && s[i].0 == k {
            let i = choose|i: int| 0 <= i < s.len() && s[i].0 == k;
            if i < s.len() - 1 {
                assert(s.drop_last()[i].0 == k);
            }
        }
    }
}

/// With distinct names, the mapping has one name per entry and is finite.
proof fn lemma_map_of_len(s: Seq<(Seq<char>, Seq<char>)>)
    requires
        distinct_names(s),
    ensures
        map_of(s).dom().finite(),
        map_of(s).dom().len() == s.len(),
    decreases s.len(),
{
    if s.len() > 0 {
        let t = s.drop_last();
        assert(distinct_names(t)) by {
            assert forall|i: int, j: int| #![trigger t[i], t[j]] 0 <= i < j < t.len() implies t[i].0 != t[j].0 by {
                assert(s[i] == t[i] && s[j] == t[j]);
            }
        }
        lemma_map_of_len(t);
        lemma_map_of_dom(t, s.last().0);
        if map_of(t).dom().contains(s.last().0) {
            let i = choose|i: int| 0 <= i < t.len() && t[i].0 == s.last().0;
            assert(s[i] == t[i]);
            assert(s[s.len() - 1] == s.last());
        }
        assert(map_of(s).dom() =~= map_of(t).dom().insert(s.last().0));
    }
}

/// Setting the version of an entry's name sets it in the mapping.
proof fn lemma_map_of_update(s: Seq<(Seq<char>, Seq<char>)>, j: int, v: Seq<char>)
    requires
        distinct_names(s),
        0 <= j < s.len(),
    ensures
        map_of(s.update(j, (s[j].0, v))) == map_of(s).insert(s[j].0, v),
    decreases s.len(),
{
    let k = s[j].0;
    let u = s.update(j, (k, v));
    if j == s.len() - 1 {
        assert(u.drop_last() =~= s.drop_last());
        assert(map_of(u) =~= map_of(s).insert(k, v));
    } else {
        let t = s.drop_last();
        assert(distinct_names(t)) by {
            assert forall|a: int, b: int| #![trigger t[a], t[b]] 0 <= a < b < t.len() implies t[a].0 != t[b].0 by {
                assert(s[a] == t[a] && s[b] == t[b]);
            }
        }
        assert(t[j] == s[j]);
        lemma_map_of_update(t, j, v);
        assert(u.drop_last() =~= t.update(j, (k, v)));
        assert(u.last() == s.last());
        assert(s[s.len() - 1] == s.last());
        assert(s.last().0 != k);
        assert(map_of(u) =~= map_of(s).insert(k, v));
    }
}

/// The views of name and version entries.
pub open spec fn entry_views(v: Seq<(String, String)>) -> Seq<(Seq<char>, Seq<char>)> {
    v.map_values(|p: (String, String)| (p.0@, p.1@))
}

/// A mapping of package names to versions, kept in the order names were
/// first added.
#[derive(Debug)]
pub struct DependencyMap {
    entries: Vec<(String, String)>,
}

impl DependencyMap {
    /// The mapping.
    pub closed spec fn view(&self) -> Map<Seq<char>, Seq<char>> {
        map_of(entry_views(self.entries@))
    }

    /// Each name is held once.
    pub closed spec fn wf(&self) -> bool {
        distinct_names(entry_views(self.entries@))
    }

    /// An empty mapping.
    pub fn new() -> (m: Self)
        ensures
            m.wf(),
            m@ == Map::<Seq<char>, Seq<char>>::empty(),
    {
        let m = DependencyMap { entries: Vec::new() };
        assert(entry_views(m.entries@) =~= Seq::<(Seq<char>, Seq<char>)>::empty());
        m
    }

    /// The number of names mapped.
    pub fn len(&self) -> (n: usize)
        requires
            self.wf(),
        ensures
            self@.dom().finite(),
            n == self@.dom().len(),
    {
        proof {
            lemma_map_of_len(entry_views(self.entries@));
        }
        self.entries.len()
    }

    /// Maps `name` to `version`, replacing any version it had.
    pub fn insert(&mut self, name: String, version: String)
        requires
            old(self).wf(),
        ensures
            final(self).wf(),
            final(self)@ == old(self)@.insert(name@, version@),
    {
        let ghost ev = entry_views(self.entries@);
        let nc = to_chars(name.as_str());
        let mut j: usize = 0;
        while j < self.entries.len()
            invariant
                j <= self.entries@.len(),
                ev == entry_views(self.entries@),
                ev == entry_views(old(self).entries@),
                distinct_names(ev),
                nc@ == name@,
                forall|i: int| 0 <= i < j ==> (#[trigger] ev[i]).0 != name@,
            decreases self.entries@.len() - j,
        {
            if eq_str(nc.as_slice(), self.entries[j].0.as_str()) {
                let ghost vv = version@;
                self.entries[j].1 = version;
                proof {
                    assert(ev[j as int].0 == name@);
                    lemma_map_of_update(ev, j as int, vv);
                    assert(entry_views(self.entries@) =~= ev.update(j as int, (name@, vv)));
                    assert forall|a: int, b: int| #![trigger entry_views(self.entries@)[a], entry_views(self.entries@)[b]]
                        0 <= a < b < entry_views(self.entries@).len() implies entry_views(self.entries@)[a].0
                        != entry_views(self.entries@)[b].0 by {
                        assert(ev[a].0 == entry_views(self.entries@)[a].0);
                        assert(ev[b].0 == entry_views(self.entries@)[b].0);
                    }
                }
                return;
            }
            j = j + 1;
        }
        let ghost nv = (name@, version@);
        self.entries.push((name, version));
        proof {
            let nev = entry_views(self.entries@);
            assert(nev =~= ev.push(nv));
            assert(nev.drop_last() =~= ev);
            assert forall|a: int, b: int| #![trigger nev[a], nev[b]] 0 <= a < b < nev.len() implies nev[a].0 != nev[b].0 by {
                if b < ev.len() {
                    assert(nev[a] == ev[a] && nev[b] == ev[b]);
                } else {
                    assert(nev[a] == ev[a]);
                }
            }
        }
    }

    /// Maps each entry's name to its version, in order, later entries
    /// overriding earlier ones.
    pub fn extend(&mut self, more: Vec<(String, String)>)
        requires
            old(self).wf(),
        ensures
            final(self).wf(),
            final(self)@ == old(self)@.union_prefer_right(map_of(entry_views(more@))),
    {
        let ghost mv = entry_views(more@);
        let ghost start = self@;
        let n = more.len();
        let mut k: usize = 0;
        for p in it: more.into_iter()
            invariant
                mv == it.seq().map_values(|p: (String, String)| (p.0@, p.1@)),
                mv.len() == n,
                k == it.index(),
                self.wf(),
                start == old(self)@,
                self@ == start.union_prefer_right(map_of(mv.take(k as int))),
        {
            assert(k < n);
            assert(mv.take(k + 1).drop_last() =~= mv.take(k as int));
            assert(mv[k as int] == (p.0@, p.1@));
            let (name, version) = p;
            self.insert(name, version);
            assert(self@ =~= start.union_prefer_right(map_of(mv.take(k + 1))));
            k = k + 1;
        }
        assert(mv.take(mv.len() as int) =~= mv);
    }

    /// Whether `name` is mapped.
    pub fn contains_key(&self, name: &str) -> (r: bool)
        requires
            self.wf(),
        ensures
            r == self@.dom().contains(name@),
    {
        let ghost ev = entry_views(self.entries@);
        proof {
            lemma_map_of_dom(ev, name@);
        }
        let nc = to_chars(name);
        let mut j: usize = 0;
        while j < self.entries.len()
            invariant
                j <= self.entries@.len(),
                ev == entry_views(self.entries@),
                nc@ == name@,
                forall|i: int| 0 <= i < j ==> (#[trigger] ev[i]).0 != name@,
            decreases self.entries@.len() - j,
        {
            if eq_str(nc.as_slice(), self.entries[j].0.as_str()) {
                assert(ev[j as int].0 == name@);
                assert(exists|i: int| 0 <= i < ev.len() && ev[i].0 == name@);
                proof {
                    lemma_map_of_dom(ev, name@);
                }
                return true;
            }
            j = j + 1;
        }
        false
    }

    /// The entries, in the order their names were first added.
    pub fn into_entries(self) -> (r: Vec<(String, String)>)
        requires
            self.wf(),
        ensures
            map_of(entry_views(r@)) == self@,
            distinct_names(entry_views(r@)),
    {
        self.entries
    }
}

/// The sources of a pnpm project's dependencies, in the order they are
/// consulted.
#[derive(Debug, Clone, Copy, PartialEq, Eq, Structural)]
pub enum PnpmSource {
    /// `pnpm-lock.yaml`, read in full.
    LockfileComprehensive,
    /// `pnpm list` over all dependencies.
    ListAll,
    /// `pnpm list` in depth, tried when the previous listing added nothing.
    ListComprehensive,
    /// `pnpm list` flat, the next fallback.
    ListFlat,
    /// `pnpm list` as recursive JSON, the last fallback.
    ListRecursiveJson,
    /// `pnpm-lock.yaml`, read line by line.
    LockfileEnhanced,
    /// The `.pnpm` virtual store.
    VirtualStore,
    /// The symbolic links of `node_modules`.
    Symlinks,
    /// A deep scan of the `.pnpm` directory.
    DeepScan,
    /// A scan of `node_modules`, when fewer than 200 dependencies were found.
    NodeModulesScan,
}

/// Where a pnpm scan stands: the dependencies found, the source to consult
/// next (`None` when done), and how many dependencies there were before the
/// `pnpm list` commands.
pub struct PnpmScanView {
    pub deps: Map<Seq<char>, Seq<char>>,
    pub next: Option<PnpmSource>,
    pub before_commands: nat,
}

/// The dependencies after a source's answer: what it found is added when it
/// answered (and, for the `pnpm list` commands, found something).
pub open spec fn with_found(
    deps: Map<Seq<char>, Seq<char>>,
    source: PnpmSource,
    found: Option<Seq<(Seq<char>, Seq<char>)>>,
) -> Map<Seq<char>, Seq<char>> {
    match found {
        Some(d) => if (source == PnpmSource::ListAll || source == PnpmSource::ListComprehensive
            || source == PnpmSource::ListFlat || source == PnpmSource::ListRecursiveJson) && d.len()
            == 0 {
            deps
        } else {
            deps.union_prefer_right(map_of(d))
        },
        None => deps,
    }
}

/// A pnpm scan after the answer of the source it consulted: the found
/// dependencies are added (see `with_found`) and the next source is chosen.
/// After `pnpm list` over all dependencies, the fallback listings are tried
/// only when it added nothing, and only until one finds something; the
/// `node_modules` scan runs only when fewer than 200 dependencies were
/// found.
pub open spec fn pnpm_after(v: PnpmScanView, found: Option<Seq<(Seq<char>, Seq<char>)>>) -> PnpmScanView {
    match v.next {
        Some(source) => {
            let deps = with_found(v.deps, source, found);
            let hit = found matches Some(d) && d.len() > 0;
            let next = match source {
                PnpmSource::LockfileComprehensive => Some(PnpmSource::ListAll),
                PnpmSource::ListAll => if deps.dom().len() == v.deps.dom().len() {
                    Some(PnpmSource::ListComprehensive)
                } else {
                    Some(PnpmSource::LockfileEnhanced)
                },
                PnpmSource::ListComprehensive => if hit {
                    Some(PnpmSource::LockfileEnhanced)
                } else {
                    Some(PnpmSource::ListFlat)
                },
                PnpmSource::ListFlat => if hit {
                    Some(PnpmSource::LockfileEnhanced)
                } else {
                    Some(PnpmSource::ListRecursiveJson)
                },
                PnpmSource::ListRecursiveJson => Some(PnpmSource::LockfileEnhanced),
                PnpmSource::LockfileEnhanced => Some(PnpmSource::VirtualStore),
                PnpmSource::VirtualStore => Some(PnpmSource::Symlinks),
                PnpmSource::Symlinks => Some(PnpmSource::DeepScan),
                PnpmSource::DeepScan => if deps.dom().len() < 200 {
                    Some(PnpmSource::NodeModulesScan)
                } else {
                    None
                },
                PnpmSource::NodeModulesScan => None,
            };
            PnpmScanView {
                deps,
                next,
                before_commands: if source == PnpmSource::ListAll {
                    v.deps.dom().len()
                } else {
                    v.before_commands
                },
            }
        },
        None => v,
    }
}

/// The view of a source's answer.
pub open spec fn found_view(found: Option<Vec<(String, String)>>) -> Option<Seq<(Seq<char>, Seq<char>)>> {
    match found {
        Some(d) => Some(entry_views(d@)),
        None => None,
    }
}

/// The comprehensive analysis of a pnpm project: its dependency sources are
/// consulted one after the other by the caller, and their answers recorded.
pub struct PnpmScan {
    deps: DependencyMap,
    next: Option<PnpmSource>,
    before_commands: usize,
}

impl PnpmScan {
    /// Where the scan stands.
    pub closed spec fn view(&self) -> PnpmScanView {
        PnpmScanView { deps: self.deps@, next: self.next, before_commands: self.before_commands as nat }
    }

    /// The found dependencies are well kept.
    pub closed spec fn wf(&self) -> bool {
        self.deps.wf()
    }

    /// A scan that starts with the full lockfile and has found nothing yet.
    pub fn new() -> (s: Self)
        ensures
            s.wf(),
            s.view().deps == Map::<Seq<char>, Seq<char>>::empty(),
            s.view().next == Some(PnpmSource::LockfileComprehensive),
    {
        PnpmScan { deps: DependencyMap::new(), next: Some(PnpmSource::LockfileComprehensive), before_commands: 0 }
    }

    /// The source to consult next; `None` when the scan is done.
    pub fn next_source(&self) -> (r: Option<PnpmSource>)
        ensures
            r == self.view().next,
    {
        self.next
    }

    /// Records the answer of the source consulted: what it found, or `None`
    /// when it failed (see `pnpm_after`).
    pub fn record(&mut self, found: Option<Vec<(String, String)>>)
        requires
            old(self).wf(),
        ensures
            final(self).wf(),
            final(self).view() == pnpm_after(old(self).view(), found_view(found)),
    {
        match self.next {
            None => {},
            Some(source) => {
                let before = self.deps.len();
                let is_listing = match source {
                    PnpmSource::ListAll | PnpmSource::ListComprehensive | PnpmSource::ListFlat
                    | PnpmSource::ListRecursiveJson => true,
                    _ => false,
                };
                let hit = match &found {
                    Some(d) => d.len() > 0,
                    None => false,
                };
                match found {
                    Some(d) => {
                        if !(is_listing && d.len() == 0) {
                            self.deps.extend(d);
                        }
                    },
                    None => {},
                }
                let after = self.deps.len();
                let next = match source {
                    PnpmSource::LockfileComprehensive => Some(PnpmSource::ListAll),
                    PnpmSource::ListAll => if after == before {
                        Some(PnpmSource::ListComprehensive)
                    } else {
                        Some(PnpmSource::LockfileEnhanced)
                    },
                    PnpmSource::ListComprehensive => if hit {
                        Some(PnpmSource::LockfileEnhanced)
                    } else {
                        Some(PnpmSource::ListFlat)
                    },
                    PnpmSource::ListFlat => if hit {
                        Some(PnpmSource::LockfileEnhanced)
                    } else {
                        Some(PnpmSource::ListRecursiveJson)
                    },
                    PnpmSource::ListRecursiveJson => Some(PnpmSource::LockfileEnhanced),
                    PnpmSource::LockfileEnhanced => Some(PnpmSource::VirtualStore),
                    PnpmSource::VirtualStore => Some(PnpmSource::Symlinks),
                    PnpmSource::Symlinks => Some(PnpmSource::DeepScan),
                    PnpmSource::DeepScan => if after < 200 {
                        Some(PnpmSource::NodeModulesScan)
                    } else {
                        None
                    },
                    PnpmSource::NodeModulesScan => None,
                };
                if source == PnpmSource::ListAll {
                    self.before_commands = before;
                }
                self.next = next;
            },
        }
    }

    /// The dependencies found, each name once.
    pub fn finish(self) -> (r: Vec<(String, String)>)
        requires
            self.wf(),
        ensures
            map_of(entry_views(r@)) == self.view().deps,
            distinct_names(entry_views(r@)),
    {
        self.deps.into_entries()
    }
}

/// Recording answers never loses a dependency already found: every name
/// found before a source is consulted is still found after.
pub proof fn law_pnpm_scan_keeps_found(v: PnpmScanView, found: Option<Seq<(Seq<char>, Seq<char>)>>)
    ensures
        v.deps.dom().subset_of(pnpm_after(v, found).deps.dom()),
{
}

/// A pnpm scan ends: each answer moves it to a later source, so it
/// consults at most ten sources before it is done.
pub open spec fn source_rank(s: Option<PnpmSource>) -> nat {
    match s {
        Some(PnpmSource::LockfileComprehensive) => 10,
        Some(PnpmSource::ListAll) => 9,
        Some(PnpmSource::ListComprehensive) => 8,
        Some(PnpmSource::ListFlat) => 7,
        Some(PnpmSource::ListRecursiveJson) => 6,
        Some(PnpmSource::LockfileEnhanced) => 5,
        Some(PnpmSource::VirtualStore) => 4,
        Some(PnpmSource::Symlinks) => 3,
        Some(PnpmSource::DeepScan) => 2,
        Some(PnpmSource::NodeModulesScan) => 1,
        None => 0,
    }
}

/// Each answer moves a pnpm scan that is not done to a later source.
pub proof fn law_pnpm_scan_progresses(v: PnpmScanView, found: Option<Seq<(Seq<char>, Seq<char>)>>)
    requires
        v.next is Some,
    ensures
        source_rank(pnpm_after(v, found).next) < source_rank(v.next),
{
}

/// The sources of a Node.js project's dependencies other than pnpm's
/// comprehensive analysis, in the order they are consulted.
#[derive(Debug, Clone, Copy, PartialEq, Eq, Structural)]
pub enum NodeSource {
    PnpmListAllRecursive,
    PnpmListJsonDepthInfinity,
    PnpmListProdDev,
    PnpmWhy,
    YarnListRecursive,
    YarnListAllPattern,
    YarnInfoWorkspaces,
    NpmLsAllJson,
    NpmLsLongFormat,
    NpmListGlobalStyle,
    /// A scan of `node_modules`, when fewer than 50 dependencies were found.
    NodeModulesScan,
    /// The lockfiles.
    Lockfiles,
    /// The workspace packages.
    Workspaces,
    /// The recursive resolver, when fewer than 20 dependencies were found.
    RecursiveResolver,
}

/// Where a detection stands: the dependencies found, and the source to
/// consult next (`None` when done).
pub struct NodeDetectionView {
    pub deps: Map<Seq<char>, Seq<char>>,
    pub next: Option<NodeSource>,
}

/// Whether a source is one of the package-manager commands, whose empty
/// answers count as no answer.
pub open spec fn is_command(s: NodeSource) -> bool {
    match s {
        NodeSource::NodeModulesScan | NodeSource::Lockfiles | NodeSource::Workspaces
        | NodeSource::RecursiveResolver => false,
        _ => true,
    }
}

/// The first of the yarn sources, when a `yarn.lock` exists and nothing was
/// found; else the first of the npm sources, when nothing was found; else
/// the sources after them.
pub open spec fn after_pnpm(deps: Map<Seq<char>, Seq<char>>, has_yarn_lock: bool) -> Option<NodeSource> {
    if deps.dom().len() == 0 && has_yarn_lock {
        Some(NodeSource::YarnListRecursive)
    } else {
        after_yarn(deps)
    }
}

/// The first of the npm sources when nothing was found, else the sources
/// after them.
pub open spec fn after_yarn(deps: Map<Seq<char>, Seq<char>>) -> Option<NodeSource> {
    if deps.dom().len() == 0 {
        Some(NodeSource::NpmLsAllJson)
    } else {
        after_npm(deps)
    }
}

/// The `node_modules` scan when fewer than 50 dependencies were found, else
/// the lockfiles.
pub open spec fn after_npm(deps: Map<Seq<char>, Seq<char>>) -> Option<NodeSource> {
    if deps.dom().len() < 50 {
        Some(NodeSource::NodeModulesScan)
    } else {
        Some(NodeSource::Lockfiles)
    }
}

/// The first source of a detection: the pnpm commands when a
/// `pnpm-lock.yaml` exists, else as `after_pnpm` with nothing found.
pub open spec fn node_start(has_pnpm_lock: bool, has_yarn_lock: bool) -> Option<NodeSource> {
    if has_pnpm_lock {
        Some(NodeSource::PnpmListAllRecursive)
    } else {
        after_pnpm(Map::empty(), has_yarn_lock)
    }
}

/// A detection after the answer of the source it consulted. The pnpm
/// commands are all consulted and each adds what it finds; the yarn
/// commands, then the npm commands, are consulted only while nothing was
/// found, until one finds something; the `node_modules` scan runs with
/// fewer than 50 dependencies found, the recursive resolver with fewer than
/// 20; the lockfiles and workspaces are always consulted.
pub open spec fn node_after(v: NodeDetectionView, has_yarn_lock: bool, found: Option<Seq<(Seq<char>, Seq<char>)>>) -> NodeDetectionView {
    match v.next {
        Some(source) => {
            let hit = found matches Some(d) && d.len() > 0;
            let deps = match found {
                Some(d) => if is_command(source) && d.len() == 0 {
                    v.deps
                } else {
                    v.deps.union_prefer_right(map_of(d))
                },
                None => v.deps,
            };
            let next = match source {
                NodeSource::PnpmListAllRecursive => Some(NodeSource::PnpmListJsonDepthInfinity),
                NodeSource::PnpmListJsonDepthInfinity => Some(NodeSource::PnpmListProdDev),
                NodeSource::PnpmListProdDev => Some(NodeSource::PnpmWhy),
                NodeSource::PnpmWhy => after_pnpm(deps, has_yarn_lock),
                NodeSource::YarnListRecursive => if hit {
                    after_yarn(deps)
                } else {
                    Some(NodeSource::YarnListAllPattern)
                },
                NodeSource::YarnListAllPattern => if hit {
                    after_yarn(deps)
                } else {
                    Some(NodeSource::YarnInfoWorkspaces)
                },
                NodeSource::YarnInfoWorkspaces => after_yarn(deps),
                NodeSource::NpmLsAllJson => if hit {
                    after_npm(deps)
                } else {
                    Some(NodeSource::NpmLsLongFormat)
                },
                NodeSource::NpmLsLongFormat => if hit {
                    after_npm(deps)
                } else {
                    Some(NodeSource::NpmListGlobalStyle)
                },
                NodeSource::NpmListGlobalStyle => after_npm(deps),
                NodeSource::NodeModulesScan => Some(NodeSource::Lockfiles),
                NodeSource::Lockfiles => Some(NodeSource::Workspaces),
                NodeSource::Workspaces => if deps.dom().len() < 20 {
                    Some(NodeSource::RecursiveResolver)
                } else {
                    None
                },
                NodeSource::RecursiveResolver => None,
            };
            NodeDetectionView { deps, next }
        },
        None => v,
    }
}

/// The detection of a Node.js project's dependencies by every method in
/// turn: the caller consults the sources and records their answers.
pub struct NodeDetection {
    deps: DependencyMap,
    next: Option<NodeSource>,
    has_yarn_lock: bool,
}

impl NodeDetection {
    /// Where the detection stands.
    pub closed spec fn view(&self) -> NodeDetectionView {
        NodeDetectionView { deps: self.deps@, next: self.next }
    }

    /// Whether the project has a `yarn.lock`.
    pub closed spec fn yarn_lock(&self) -> bool {
        self.has_yarn_lock
    }

    /// The found dependencies are well kept.
    pub closed spec fn wf(&self) -> bool {
        self.deps.wf()
    }

    /// A detection for a project with or without `pnpm-lock.yaml` and
    /// `yarn.lock`, with nothing found yet.
    pub fn new(has_pnpm_lock: bool, has_yarn_lock: bool) -> (d: Self)
        ensures
            d.wf(),
            d.yarn_lock() == has_yarn_lock,
            d.view().deps == Map::<Seq<char>, Seq<char>>::empty(),
            d.view().next == node_start(has_pnpm_lock, has_yarn_lock),
    {
        let deps = DependencyMap::new();
        let next = if has_pnpm_lock {
            Some(NodeSource::PnpmListAllRecursive)
        } else {
            let n = deps.len();
            Self::next_after_pnpm(n, has_yarn_lock)
        };
        NodeDetection { deps, next, has_yarn_lock }
    }

    fn next_after_pnpm(n: usize, has_yarn_lock: bool) -> (r: Option<NodeSource>)
        ensures
            forall|m: Map<Seq<char>, Seq<char>>| m.dom().len() == n ==> r == after_pnpm(m, has_yarn_lock),
    {
        if n == 0 && has_yarn_lock {
            Some(NodeSource::YarnListRecursive)
        } else {
            Self::next_after_yarn(n)
        }
    }

    fn next_after_yarn(n: usize) -> (r: Option<NodeSource>)
        ensures
            forall|m: Map<Seq<char>, Seq<char>>| m.dom().len() == n ==> r == after_yarn(m),
    {
        if n == 0 {
            Some(NodeSource::NpmLsAllJson)
        } else {
            Self::next_after_npm(n)
        }
    }

    fn next_after_npm(n: usize) -> (r: Option<NodeSource>)
        ensures
            forall|m: Map<Seq<char>, Seq<char>>| m.dom().len() == n ==> r == after_npm(m),
    {
        if n < 50 {
            Some(NodeSource::NodeModulesScan)
        } else {
            Some(NodeSource::Lockfiles)
        }
    }

    /// The source to consult next; `None` when the detection is done.
    pub fn next_source(&self) -> (r: Option<NodeSource>)
        ensures
            r == self.view().next,
    {
        self.next
    }

    /// Records the answer of the source consulted: what it found, or `None`
    /// when it failed (see `node_after`).
    pub fn record(&mut self, found: Option<Vec<(String, String)>>)
        requires
            old(self).wf(),
        ensures
            final(self).wf(),
            final(self).yarn_lock() == old(self).yarn_lock(),
            final(self).view() == node_after(old(self).view(), old(self).yarn_lock(), found_view(found)),
    {
        match self.next {
            None => {},
            Some(source) => {
                let command = match source {
                    NodeSource::NodeModulesScan | NodeSource::Lockfiles | NodeSource::Workspaces
                    | NodeSource::RecursiveResolver => false,
                    _ => true,
                };
                let hit = match &found {
                    Some(d) => d.len() > 0,
                    None => false,
                };
                match found {
                    Some(d) => {
                        if !(command && d.len() == 0) {
                            self.deps.extend(d);
                        }
                    },
                    None => {},
                }
                let n = self.deps.len();
                let next = match source {
                    NodeSource::PnpmListAllRecursive => Some(NodeSource::PnpmListJsonDepthInfinity),
                    NodeSource::PnpmListJsonDepthInfinity => Some(NodeSource::PnpmListProdDev),
                    NodeSource::PnpmListProdDev => Some(NodeSource::PnpmWhy),
                    NodeSource::PnpmWhy => Self::next_after_pnpm(n, self.has_yarn_lock),
                    NodeSource::YarnListRecursive => if hit {
                        Self::next_after_yarn(n)
                    } else {
                        Some(NodeSource::YarnListAllPattern)
                    },
                    NodeSource::YarnListAllPattern => if hit {
                        Self::next_after_yarn(n)
                    } else {
                        Some(NodeSource::YarnInfoWorkspaces)
                    },
                    NodeSource::YarnInfoWorkspaces => Self::next_after_yarn(n),
                    NodeSource::NpmLsAllJson => if hit {
                        Self::next_after_npm(n)
                    } else {
                        Some(NodeSource::NpmLsLongFormat)
                    },
                    NodeSource::NpmLsLongFormat => if hit {
                        Self::next_after_npm(n)
                    } else {
                        Some(NodeSource::NpmListGlobalStyle)
                    },
                    NodeSource::NpmListGlobalStyle => Self::next_after_npm(n),
                    NodeSource::NodeModulesScan => Some(NodeSource::Lockfiles),
                    NodeSource::Lockfiles => Some(NodeSource::Workspaces),
                    NodeSource::Workspaces => if n < 20 {
                        Some(NodeSource::RecursiveResolver)
                    } else {
                        None
                    },
                    NodeSource::RecursiveResolver => None,
                };
                self.next = next;
            },
        }
    }

    /// The dependencies found, each name once.
    pub fn finish(self) -> (r: Vec<(String, String)>)
        requires
            self.wf(),
        ensures
            map_of(entry_views(r@)) == self.view().deps,
            distinct_names(entry_views(r@)),
    {
        self.deps.into_entries()
    }
}

/// Recording answers never loses a dependency already found.
pub proof fn law_node_detection_keeps_found(v: NodeDetectionView, has_yarn_lock: bool, found: Option<Seq<(Seq<char>, Seq<char>)>>)
    ensures
        v.deps.dom().subset_of(node_after(v, has_yarn_lock, found).deps.dom()),
{
}

/// The license information of Node.js dependencies, each given with the
/// license found for it; versions are recorded without their requirement
/// operators (see `clean_version`).
pub open spec fn describes_js(
    d: LicenseInfo,
    dep: (Seq<char>, Seq<char>, Seq<char>),
    known: Seq<(String, License)>,
    osi: Seq<(String, OsiStatus)>,
    config: FeludaConfig,
) -> bool {
    describes(d, (dep.0, clean_version(dep.1), dep.2), known, osi, config)
}

/// The license information of Node.js dependencies (see `describes_js`).
pub fn analyze_js_licenses(
    dependencies: Vec<(String, String, String)>,
    known_licenses: &Vec<(String, License)>,
    osi_licenses: &Vec<(String, OsiStatus)>,
    config: &FeludaConfig,
) -> (r: Vec<LicenseInfo>)
    ensures
        r@.len() == dependencies@.len(),
        forall|k: int|
            0 <= k < dependencies@.len() ==> describes_js(
                #[trigger] r@[k],
                triple_views(dependencies@)[k],
                known_licenses@,
                osi_licenses@,
                *config,
            ),
{
    let ghost dv = triple_views(dependencies@);
    let n = dependencies.len();
    let mut cleaned: Vec<(String, String, String)> = Vec::new();
    let mut k: usize = 0;
    for t in it: dependencies.into_iter()
        invariant
            dv == it.seq().map_values(|t: (String, String, String)| (t.0@, t.1@, t.2@)),
            dv.len() == n,
            k == it.index(),
            cleaned@.len() == k,
            forall|j: int| 0 <= j < k ==> #[trigger] triple_views(cleaned@)[j] == (dv[j].0, clean_version(dv[j].1), dv[j].2),
    {
        assert(k < n);
        let (name, version, license) = t;
        let v = clean_version_string(version.as_str());
        let ghost before = triple_views(cleaned@);
        let ghost tv = (name@, v@, license@);
        cleaned.push((name, v, license));
        assert(triple_views(cleaned@) =~= before.push(tv));
        assert(triple_views(cleaned@)[k as int] == (dv[k as int].0, clean_version(dv[k as int].1), dv[k as int].2));
        k = k + 1;
    }
    dependency_licenses(cleaned, known_licenses, osi_licenses, config)
}

} // verus!
