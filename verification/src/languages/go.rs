//! Go modules: `module@version` strings and the module graph printed by
//! `go mod graph`, resolved to the modules within a depth limit.

use vstd::prelude::*;

use crate::languages::c::{group, group_exec, matches_view};
use crate::licenses::string_views;
use crate::pattern::{
    Groups, groups_view, regex_all, regex_captures_iter, regex_compile_error, regex_replace,
    regex_replace_all,
};
use crate::text::{
    eq_exec, from_chars, join, join_exec, lines, lines_exec, pairs, push_pair, rfind, rfind_exec, seqs, slice_of,
    split_once, split_once_exec, to_chars, trim, trimmed,
};

verus! {

/// A Go dependency.
#[derive(Debug, Clone)]
pub struct GoPackages {
    pub name: String,
    pub version: String,
}

/// The module path of `path@version` (the whole string when there is no `@`).
pub open spec fn module_name(m: Seq<char>) -> Seq<char> {
    match rfind(m, '@') {
        Some(i) => m.subrange(0, i),
        None => m,
    }
}

/// The version of `path@version` (`unknown` when there is no `@`).
pub open spec fn module_version(m: Seq<char>) -> Seq<char> {
    match rfind(m, '@') {
        Some(i) => m.subrange(i + 1, m.len() as int),
        None => "unknown"@,
    }
}

/// Splits a module string at its last `@`.
fn module_parts(m: &[char]) -> (r: (Vec<char>, Vec<char>))
    ensures
        r.0@ == module_name(m@),
        r.1@ == module_version(m@),
{
    let n = m.len();
    assert(n == m@.len());
    match rfind_exec(m, '@') {
        Some(i) => (slice_of(m, 0, i), slice_of(m, i + 1, n)),
        None => (slice_of(m, 0, m.len()), to_chars("unknown")),
    }
}

/// Parses `path@version` into its module path and version.
pub fn parse_go_module_version(module_str: &str) -> (r: Option<(String, String)>)
    ensures
        r matches Some(p) && p.0@ == module_name(module_str@) && p.1@ == module_version(
            module_str@,
        ),
{
    let c = to_chars(module_str);
    let (n, v) = module_parts(c.as_slice());
    assert(c@.subrange(0, c@.len() as int) =~= c@);
    Some(crate::text::pair_of(n.as_slice(), v.as_slice()))
}

/// The edge that one line of `go mod graph` output declares, if any:
/// `from to`, split at the first space.
pub open spec fn graph_edge(line: Seq<char>) -> Option<(Seq<char>, Seq<char>)> {
    let t = trim(line);
    if t.len() == 0 {
        None
    } else {
        match split_once(t, " "@) {
            Some((a, b)) => Some((trim(a), trim(b))),
            None => None,
        }
    }
}

/// The edges of a sequence of lines, in order.
pub open spec fn graph_edges(ls: Seq<Seq<char>>) -> Seq<(Seq<char>, Seq<char>)>
    decreases ls.len(),
{
    if ls.len() == 0 {
        seq![]
    } else {
        graph_edges(ls.drop_last()) + match graph_edge(ls.last()) {
            Some(e) => seq![e],
            None => seq![],
        }
    }
}

/// The views of a list of edges.
pub open spec fn edge_views(e: Seq<(Vec<char>, Vec<char>)>) -> Seq<(Seq<char>, Seq<char>)> {
    e.map_values(|p: (Vec<char>, Vec<char>)| (p.0@, p.1@))
}

/// The edges of `go mod graph` output.
fn graph_edges_exec(output: &[char]) -> (r: Vec<(Vec<char>, Vec<char>)>)
    ensures
        edge_views(r@) == graph_edges(lines(output@)),
{
    let ls = lines_exec(output);
    let ghost l = seqs(ls@);
    let mut out: Vec<(Vec<char>, Vec<char>)> = Vec::new();
    let mut i: usize = 0;
    while i < ls.len()
        invariant
            i <= ls@.len(),
            l == seqs(ls@),
            l == lines(output@),
            edge_views(out@) == graph_edges(l.take(i as int)),
        decreases ls@.len() - i,
    {
        assert(l.take(i + 1).drop_last() =~= l.take(i as int));
        assert(l.take(i + 1).last() == ls@[i as int]@);
        let ghost before = edge_views(out@);
        let t = trimmed(ls[i].as_slice());
        if t.len() > 0 {
            match split_once_exec(t.as_slice(), " ") {
                Some((a, b)) => {
                    let e = (trimmed(a.as_slice()), trimmed(b.as_slice()));
                    out.push(e);
                    assert(edge_views(out@) =~= before + seq![(e.0@, e.1@)]);
                },
                None => {
                    assert(edge_views(out@) =~= before + Seq::<(Seq<char>, Seq<char>)>::empty());
                },
            }
        } else {
            assert(edge_views(out@) =~= before + Seq::<(Seq<char>, Seq<char>)>::empty());
        }
        i = i + 1;
    }
    assert(l.take(ls@.len() as int) =~= l);
    out
}


/// Modules that some edge leaves.
pub open spec fn sources(e: Seq<(Seq<char>, Seq<char>)>) -> Set<Seq<char>> {
    Set::new(|m: Seq<char>| exists|i: int| 0 <= i < e.len() && #[trigger] e[i].0 == m)
}

/// Modules that some edge enters.
pub open spec fn targets(e: Seq<(Seq<char>, Seq<char>)>) -> Set<Seq<char>> {
    Set::new(|m: Seq<char>| exists|i: int| 0 <= i < e.len() && #[trigger] e[i].1 == m)
}

/// The root modules: sources that no edge enters.
pub open spec fn graph_roots(e: Seq<(Seq<char>, Seq<char>)>) -> Set<Seq<char>> {
    Set::new(|m: Seq<char>| sources(e).contains(m) && !targets(e).contains(m))
}

/// The modules that edges leaving `p` enter, among the first `n` edges.
pub open spec fn successors_upto(e: Seq<(Seq<char>, Seq<char>)>, p: Set<Seq<char>>, n: int) -> Set<
    Seq<char>,
> {
    Set::new(
        |m: Seq<char>| exists|k: int| 0 <= k < n && #[trigger] e[k].1 == m && p.contains(e[k].0),
    )
}

/// One step of the search: `p` and everything one edge away from it.
pub open spec fn graph_step(e: Seq<(Seq<char>, Seq<char>)>, p: Set<Seq<char>>) -> Set<Seq<char>> {
    p.union(successors_upto(e, p, e.len() as int))
}

/// The modules at most `k` edges away from a root.
pub open spec fn within(e: Seq<(Seq<char>, Seq<char>)>, k: nat) -> Set<Seq<char>>
    decreases k,
{
    if k == 0 {
        graph_roots(e)
    } else {
        graph_step(e, within(e, (k - 1) as nat))
    }
}

/// The modules at depth below `max_depth`, the roots being at depth 0.
pub open spec fn reached(e: Seq<(Seq<char>, Seq<char>)>, max_depth: u32) -> Set<Seq<char>> {
    if max_depth == 0 {
        Set::empty()
    } else {
        within(e, (max_depth - 1) as nat)
    }
}

/// Once a step adds nothing, no later step does.
proof fn lemma_within_fixpoint(e: Seq<(Seq<char>, Seq<char>)>, j: nat, k: nat)
    requires
        graph_step(e, within(e, j)) == within(e, j),
        j <= k,
    ensures
        within(e, k) == within(e, j),
    decreases k - j,
{
    if k > j {
        lemma_within_fixpoint(e, j, (k - 1) as nat);
    }
}

/// Whether a list holds `x`.
fn in_list(list: &Vec<Vec<char>>, x: &[char]) -> (r: bool)
    ensures
        r == seqs(list@).contains(x@),
{
    let mut i: usize = 0;
    while i < list.len()
        invariant
            i <= list@.len(),
            forall|k: int| 0 <= k < i ==> seqs(list@)[k] != x@,
        decreases list@.len() - i,
    {
        if eq_exec(list[i].as_slice(), x) {
            assert(seqs(list@)[i as int] == x@);
            return true;
        }
        i = i + 1;
    }
    false
}

/// Whether some edge enters `x`.
fn is_target(es: &Vec<(Vec<char>, Vec<char>)>, x: &[char]) -> (r: bool)
    ensures
        r == targets(edge_views(es@)).contains(x@),
{
    let ghost e = edge_views(es@);
    let mut i: usize = 0;
    while i < es.len()
        invariant
            i <= es@.len(),
            e == edge_views(es@),
            forall|k: int| 0 <= k < i ==> e[k].1 != x@,
        decreases es@.len() - i,
    {
        if eq_exec(es[i].1.as_slice(), x) {
            assert(e[i as int].1 == x@);
            return true;
        }
        i = i + 1;
    }
    false
}

/// Whether `m` leaves one of the first `n` edges and enters none.
pub open spec fn root_upto(e: Seq<(Seq<char>, Seq<char>)>, n: int, m: Seq<char>) -> bool {
    (exists|k: int| 0 <= k < n && #[trigger] e[k].0 == m) && !targets(e).contains(m)
}

/// The root modules of the edges (a source may be listed more than once).
fn roots_exec(es: &Vec<(Vec<char>, Vec<char>)>) -> (r: Vec<Vec<char>>)
    ensures
        seqs(r@).to_set() == graph_roots(edge_views(es@)),
{
    let ghost e = edge_views(es@);
    let mut out: Vec<Vec<char>> = Vec::new();
    let mut i: usize = 0;
    while i < es.len()
        invariant
            i <= es@.len(),
            e == edge_views(es@),
            forall|m: Seq<char>| seqs(out@).contains(m) <==> root_upto(e, i as int, m),
        decreases es@.len() - i,
    {
        let ghost before = seqs(out@);
        let tgt = is_target(es, es[i].0.as_slice());
        if !tgt {
            out.push(slice_of(es[i].0.as_slice(), 0, es[i].0.len()));
            assert(es[i as int].0@.subrange(0, es[i as int].0@.len() as int) =~= es[i as int].0@);
            assert(seqs(out@) =~= before.push(e[i as int].0));
        } else {
            assert(seqs(out@) =~= before);
        }
        assert forall|m: Seq<char>| seqs(out@).contains(m) <==> root_upto(e, i + 1, m) by {
            if seqs(out@).contains(m) {
                if before.contains(m) {
                    assert(root_upto(e, i as int, m));
                    let k = choose|k: int| 0 <= k < i && #[trigger] e[k].0 == m;
                    assert(0 <= k < i + 1 && e[k].0 == m);
                } else {
                    assert(!tgt);
                    assert(m == e[i as int].0);
                    assert(0 <= i < i + 1 && e[i as int].0 == m);
                }
            }
            if root_upto(e, i + 1, m) {
                let k = choose|k: int| 0 <= k < i + 1 && #[trigger] e[k].0 == m;
                if k == i {
                    assert(seqs(out@).last() == m);
                } else {
                    assert(root_upto(e, i as int, m));
                    let j = choose|j: int| 0 <= j < before.len() && before[j] == m;
                    assert(seqs(out@)[j] == m);
                }
            }
        }
        i = i + 1;
    }
    assert(seqs(out@).to_set() =~= graph_roots(e)) by {
        assert forall|m: Seq<char>| graph_roots(e).contains(m) implies seqs(out@).to_set().contains(
            m,
        ) by {
            assert(sources(e).contains(m));
            assert(root_upto(e, es@.len() as int, m));
        }
        assert forall|m: Seq<char>| seqs(out@).to_set().contains(m) implies graph_roots(e).contains(
            m,
        ) by {
            assert(root_upto(e, es@.len() as int, m));
        }
    }
    out
}


/// A copy of a list of character vectors.
fn copy_list(v: &Vec<Vec<char>>) -> (r: Vec<Vec<char>>)
    ensures
        seqs(r@) == seqs(v@),
{
    let mut r: Vec<Vec<char>> = Vec::new();
    let mut i: usize = 0;
    while i < v.len()
        invariant
            i <= v@.len(),
            seqs(r@) == seqs(v@).take(i as int),
        decreases v@.len() - i,
    {
        let ghost before = seqs(r@);
        let x = slice_of(v[i].as_slice(), 0, v[i].len());
        assert(v@[i as int]@.subrange(0, v@[i as int]@.len() as int) =~= v@[i as int]@);
        r.push(x);
        assert(seqs(r@) =~= before.push(v@[i as int]@));
        assert(seqs(r@) =~= seqs(v@).take(i + 1));
        i = i + 1;
    }
    assert(seqs(v@).take(v@.len() as int) =~= seqs(v@));
    r
}

/// Whether `m` is in `cur` or entered by one of the first `n` edges that
/// leave `cur`.
pub open spec fn stepped_upto(
    e: Seq<(Seq<char>, Seq<char>)>,
    cur: Seq<Seq<char>>,
    n: int,
    m: Seq<char>,
) -> bool {
    cur.contains(m) || exists|k: int| 0 <= k < n && #[trigger] e[k].1 == m && cur.contains(e[k].0)
}

/// One search step over the edges; also tells whether anything was added.
fn step_exec(es: &Vec<(Vec<char>, Vec<char>)>, cur: &Vec<Vec<char>>) -> (r: (Vec<Vec<char>>, bool))
    ensures
        seqs(r.0@).to_set() == graph_step(edge_views(es@), seqs(cur@).to_set()),
        !r.1 ==> seqs(r.0@).to_set() == seqs(cur@).to_set(),
{
    let ghost e = edge_views(es@);
    let ghost c = seqs(cur@);
    let mut out = copy_list(cur);
    let mut grew = false;
    let mut i: usize = 0;
    while i < es.len()
        invariant
            i <= es@.len(),
            e == edge_views(es@),
            c == seqs(cur@),
            forall|m: Seq<char>| seqs(out@).contains(m) <==> stepped_upto(e, c, i as int, m),
            !grew ==> forall|m: Seq<char>| seqs(out@).contains(m) <==> c.contains(m),
        decreases es@.len() - i,
    {
        let ghost before = seqs(out@);
        let from_in = in_list(cur, es[i].0.as_slice());
        let to_in = in_list(&out, es[i].1.as_slice());
        if from_in && !to_in {
            out.push(slice_of(es[i].1.as_slice(), 0, es[i].1.len()));
            assert(es[i as int].1@.subrange(0, es[i as int].1@.len() as int) =~= es[i as int].1@);
            assert(seqs(out@) =~= before.push(e[i as int].1));
            grew = true;
        } else {
            assert(seqs(out@) =~= before);
        }
        assert forall|m: Seq<char>| seqs(out@).contains(m) <==> stepped_upto(e, c, i + 1, m) by {
            if seqs(out@).contains(m) {
                if before.contains(m) {
                    if !c.contains(m) {
                        let k = choose|k: int| 0 <= k < i && #[trigger] e[k].1 == m && c.contains(
                            e[k].0,
                        );
                        assert(0 <= k < i + 1 && e[k].1 == m && c.contains(e[k].0));
                    }
                } else {
                    assert(m == e[i as int].1);
                    assert(e[i as int].0 == es@[i as int].0@);
                    assert(0 <= i < i + 1 && e[i as int].1 == m && c.contains(e[i as int].0));
                }
            }
            if stepped_upto(e, c, i + 1, m) {
                if !c.contains(m) {
                    let k = choose|k: int| 0 <= k < i + 1 && #[trigger] e[k].1 == m && c.contains(
                        e[k].0,
                    );
                    if k < i {
                        assert(stepped_upto(e, c, i as int, m));
                    } else {
                        assert(e[i as int].0 == es@[i as int].0@);
                        assert(e[i as int].1 == es@[i as int].1@);
                        if !(from_in && !to_in) {
                            assert(before.contains(m));
                        } else {
                            assert(seqs(out@).last() == m);
                        }
                    }
                }
                if before.contains(m) {
                    let j = choose|j: int| 0 <= j < before.len() && before[j] == m;
                    assert(seqs(out@)[j] == m);
                }
            }
        }
        i = i + 1;
    }
    assert(seqs(out@).to_set() =~= graph_step(e, c.to_set())) by {
        assert forall|m: Seq<char>| seqs(out@).to_set().contains(m) <==> graph_step(
            e,
            c.to_set(),
        ).contains(m) by {
            assert(seqs(out@).contains(m) <==> stepped_upto(e, c, e.len() as int, m));
            if successors_upto(e, c.to_set(), e.len() as int).contains(m) {
                let k = choose|k: int|
                    0 <= k < e.len() && #[trigger] e[k].1 == m && c.to_set().contains(e[k].0);
                assert(stepped_upto(e, c, e.len() as int, m));
            }
            if stepped_upto(e, c, e.len() as int, m) && !c.contains(m) {
                let k = choose|k: int|
                    0 <= k < e.len() && #[trigger] e[k].1 == m && c.contains(e[k].0);
                assert(successors_upto(e, c.to_set(), e.len() as int).contains(m));
            }
        }
    }
    if !grew {
        assert(seqs(out@).to_set() =~= c.to_set());
    }
    (out, grew)
}


/// The module occurrences of the edges, in order: each edge's source, then
/// its target.
pub open spec fn occurrences(e: Seq<(Seq<char>, Seq<char>)>) -> Seq<Seq<char>>
    decreases e.len(),
{
    if e.len() == 0 {
        seq![]
    } else {
        occurrences(e.drop_last()) + seq![e.last().0, e.last().1]
    }
}

/// Every end of every edge occurs.
proof fn lemma_occurrences(e: Seq<(Seq<char>, Seq<char>)>)
    ensures
        forall|i: int|
            0 <= i < e.len() ==> occurrences(e).contains(#[trigger] e[i].0) && occurrences(
                e,
            ).contains(e[i].1),
    decreases e.len(),
{
    if e.len() > 0 {
        lemma_occurrences(e.drop_last());
        let o = occurrences(e);
        let p = occurrences(e.drop_last());
        assert forall|i: int|
            0 <= i < e.len() implies occurrences(e).contains(#[trigger] e[i].0) && occurrences(
                e,
            ).contains(e[i].1) by {
            if i < e.len() - 1 {
                assert(e.drop_last()[i] == e[i]);
                let j = choose|j: int| 0 <= j < p.len() && p[j] == e[i].0;
                assert(o[j] == e[i].0);
                let j2 = choose|j: int| 0 <= j < p.len() && p[j] == e[i].1;
                assert(o[j2] == e[i].1);
            } else {
                assert(o[p.len() as int] == e[i].0);
                assert(o[p.len() as int + 1] == e[i].1);
            }
        }
    }
}

/// Every module within any depth occurs in the edges.
proof fn lemma_within_occurs(e: Seq<(Seq<char>, Seq<char>)>, k: nat, m: Seq<char>)
    requires
        within(e, k).contains(m),
    ensures
        occurrences(e).contains(m),
    decreases k,
{
    lemma_occurrences(e);
    if k == 0 {
        let i = choose|i: int| 0 <= i < e.len() && #[trigger] e[i].0 == m;
    } else {
        if within(e, (k - 1) as nat).contains(m) {
            lemma_within_occurs(e, (k - 1) as nat, m);
        } else {
            let i = choose|i: int|
                0 <= i < e.len() && #[trigger] e[i].1 == m && within(e, (k - 1) as nat).contains(
                    e[i].0,
                );
        }
    }
}

/// The version recorded last for a module path among the occurrences.
pub open spec fn last_version(ms: Seq<Seq<char>>, n: Seq<char>) -> Option<Seq<char>>
    decreases ms.len(),
{
    if ms.len() == 0 {
        None
    } else if module_name(ms.last()) == n {
        Some(module_version(ms.last()))
    } else {
        last_version(ms.drop_last(), n)
    }
}

/// A module path with some module of it among `set`.
pub open spec fn has_name_in(set: Set<Seq<char>>, n: Seq<char>) -> bool {
    exists|m: Seq<char>| set.contains(m) && module_name(m) == n
}

/// The module occurrences of a list of edges.
fn occurrences_exec(es: &Vec<(Vec<char>, Vec<char>)>) -> (r: Vec<Vec<char>>)
    ensures
        seqs(r@) == occurrences(edge_views(es@)),
{
    let ghost e = edge_views(es@);
    let mut out: Vec<Vec<char>> = Vec::new();
    let mut i: usize = 0;
    while i < es.len()
        invariant
            i <= es@.len(),
            e == edge_views(es@),
            seqs(out@) == occurrences(e.take(i as int)),
        decreases es@.len() - i,
    {
        let ghost before = seqs(out@);
        let a = slice_of(es[i].0.as_slice(), 0, es[i].0.len());
        let b = slice_of(es[i].1.as_slice(), 0, es[i].1.len());
        assert(a@ =~= e[i as int].0);
        assert(b@ =~= e[i as int].1);
        out.push(a);
        out.push(b);
        assert(e.take(i + 1).drop_last() =~= e.take(i as int));
        assert(seqs(out@) =~= before + seq![e[i as int].0, e[i as int].1]);
        i = i + 1;
    }
    assert(e.take(es@.len() as int) =~= e);
    out
}

/// The version recorded last for module path `n`, which occurs.
fn last_version_exec(ms: &Vec<Vec<char>>, n: &[char]) -> (r: Vec<char>)
    requires
        last_version(seqs(ms@), n@) is Some,
    ensures
        last_version(seqs(ms@), n@) == Some(r@),
{
    let ghost l = seqs(ms@);
    let mut k: usize = ms.len();
    assert(l.take(l.len() as int) =~= l);
    while k > 0
        invariant
            k <= ms@.len(),
            l == seqs(ms@),
            last_version(l, n@) == last_version(l.take(k as int), n@),
        decreases k,
    {
        let (name, ver) = module_parts(ms[k - 1].as_slice());
        assert(l.take(k as int).last() == ms@[k - 1]@);
        if eq_exec(name.as_slice(), n) {
            return ver;
        }
        assert(l.take(k as int).drop_last() =~= l.take(k - 1));
        k = k - 1;
    }
    assert(false);
    Vec::new()
}

/// Whether some module in `cur` has module path `n`.
fn has_name_exec(cur: &Vec<Vec<char>>, n: &[char]) -> (r: bool)
    ensures
        r == has_name_in(seqs(cur@).to_set(), n@),
{
    let ghost c = seqs(cur@);
    let mut i: usize = 0;
    while i < cur.len()
        invariant
            i <= cur@.len(),
            c == seqs(cur@),
            forall|k: int| 0 <= k < i ==> module_name(#[trigger] c[k]) != n@,
        decreases cur@.len() - i,
    {
        let (name, _) = module_parts(cur[i].as_slice());
        if eq_exec(name.as_slice(), n) {
            assert(c.to_set().contains(c[i as int]));
            return true;
        }
        i = i + 1;
    }
    assert forall|m: Seq<char>| c.to_set().contains(m) implies module_name(m) != n@ by {
        let j = choose|j: int| 0 <= j < c.len() && c[j] == m;
    }
    false
}

/// The modules within the depth limit, as a list.
fn reached_exec(es: &Vec<(Vec<char>, Vec<char>)>, max_depth: u32) -> (r: Vec<Vec<char>>)
    ensures
        seqs(r@).to_set() == reached(edge_views(es@), max_depth),
{
    let ghost e = edge_views(es@);
    if max_depth == 0 {
        let r: Vec<Vec<char>> = Vec::new();
        assert(seqs(r@).to_set() =~= Set::<Seq<char>>::empty());
        return r;
    }
    let mut cur = roots_exec(es);
    let mut j: u32 = 0;
    let mut settled = false;
    while !settled && j + 1 < max_depth
        invariant
            e == edge_views(es@),
            j < max_depth,
            seqs(cur@).to_set() == within(e, j as nat),
            settled ==> graph_step(e, within(e, j as nat)) == within(e, j as nat),
        decreases 2 * (max_depth - j) + if settled {
            0int
        } else {
            1int
        },
    {
        let (next, grew) = step_exec(es, &cur);
        if grew {
            cur = next;
            j = j + 1;
        } else {
            settled = true;
        }
    }
    proof {
        if settled {
            lemma_within_fixpoint(e, j as nat, (max_depth - 1) as nat);
        }
    }
    cur
}

/// The module paths kept from the occurrences: those with a module within
/// `reach`, each once, in order of first occurrence.
pub open spec fn kept_names(o: Seq<Seq<char>>, reach: Set<Seq<char>>) -> Seq<Seq<char>>
    decreases o.len(),
{
    if o.len() == 0 {
        seq![]
    } else {
        let prev = kept_names(o.drop_last(), reach);
        let n = module_name(o.last());
        if has_name_in(reach, n) && !prev.contains(n) {
            prev.push(n)
        } else {
            prev
        }
    }
}

/// The version of an optional version, empty when there is none.
pub open spec fn version_or_empty(v: Option<Seq<char>>) -> Seq<char> {
    match v {
        Some(x) => x,
        None => seq![],
    }
}

/// The dependencies that `go mod graph` output resolves to within the depth
/// limit: each kept module path with the version recorded last for it.
pub open spec fn graph_dependencies(output: Seq<char>, max_depth: u32) -> Seq<(Seq<char>, Seq<char>)> {
    let e = graph_edges(lines(output));
    let o = occurrences(e);
    kept_names(o, reached(e, max_depth)).map_values(
        |n: Seq<char>| (n, version_or_empty(last_version(o, n))),
    )
}

/// Resolves `go mod graph` output to the modules within the depth limit:
/// the roots (modules that no edge enters) are at depth 0, and a module's
/// depth is its shortest distance from a root, as a breadth-first walk from
/// all roots at once finds it; so the result does not depend on the order
/// in which roots or edges are met. A module is kept when its depth is below
/// `max_depth`. Each kept module path is listed once, with the version
/// recorded last for it.
pub fn parse_go_mod_graph_output(output: &str, max_depth: u32) -> (r: Vec<(String, String)>)
    ensures
        pairs(r@) == graph_dependencies(output@, max_depth),
        forall|i: int|
            0 <= i < r@.len() ==> has_name_in(
                reached(graph_edges(lines(output@)), max_depth),
                #[trigger] r@[i].0@,
            ) && last_version(occurrences(graph_edges(lines(output@))), r@[i].0@) == Some(
                r@[i].1@,
            ),
        forall|m: Seq<char>|
            #[trigger] reached(graph_edges(lines(output@)), max_depth).contains(m) ==> exists|i: int|
                0 <= i < r@.len() && r@[i].0@ == module_name(m),
        forall|i: int, j: int| 0 <= i < j < r@.len() ==> r@[i].0@ != r@[j].0@,
{
    let c = to_chars(output);
    let es = graph_edges_exec(c.as_slice());
    let ghost e = edge_views(es@);
    let ms = occurrences_exec(&es);
    let ghost o = seqs(ms@);
    let cur = reached_exec(&es, max_depth);
    let ghost reach = reached(e, max_depth);
    let mut out: Vec<(String, String)> = Vec::new();
    let mut names: Vec<Vec<char>> = Vec::new();
    let mut i: usize = 0;
    while i < ms.len()
        invariant
            i <= ms@.len(),
            e == graph_edges(lines(output@)),
            o == seqs(ms@),
            o == occurrences(e),
            reach == reached(e, max_depth),
            seqs(cur@).to_set() == reach,
            names@.len() == out@.len(),
            forall|k: int| 0 <= k < out@.len() ==> #[trigger] out@[k].0@ == names@[k]@,
            forall|k: int|
                0 <= k < out@.len() ==> has_name_in(reach, #[trigger] out@[k].0@) && last_version(
                    o,
                    out@[k].0@,
                ) == Some(out@[k].1@),
            forall|k: int|
                0 <= k < i && has_name_in(reach, module_name(#[trigger] o[k])) ==> seqs(
                    names@,
                ).contains(module_name(o[k])),
            forall|a: int, b: int| 0 <= a < b < out@.len() ==> out@[a].0@ != out@[b].0@,
            seqs(names@) == kept_names(o.take(i as int), reach),
            pairs(out@) == seqs(names@).map_values(
                |n: Seq<char>| (n, version_or_empty(last_version(o, n))),
            ),
        decreases ms@.len() - i,
    {
        let ghost names_before = seqs(names@);
        let (n, _) = module_parts(ms[i].as_slice());
        let seen = in_list(&names, n.as_slice());
        let has = has_name_exec(&cur, n.as_slice());
        if !seen && has {
            proof {
                assert(o[i as int] == ms@[i as int]@);
                let mm = choose|mm: Seq<char>| reach.contains(mm) && module_name(mm) == n@;
                lemma_lastver_some(o, i as int);
            }
            let v = last_version_exec(&ms, n.as_slice());
            let p = crate::text::pair_of(n.as_slice(), v.as_slice());
            let ghost old_names = seqs(names@);
            proof {
                assert forall|k: int| 0 <= k < out@.len() implies out@[k].0@ != n@ by {
                    assert(old_names[k] == names@[k]@);
                }
            }
            let ghost old_pairs = pairs(out@);
            out.push(p);
            names.push(n);
            assert(seqs(names@) =~= old_names.push(n@));
            assert(pairs(out@) =~= old_pairs.push((n@, v@)));
            assert(pairs(out@) =~= seqs(names@).map_values(
                |n: Seq<char>| (n, version_or_empty(last_version(o, n))),
            ));
        } else {
            proof {
                assert(o[i as int] == ms@[i as int]@);
            }
        }
        proof {
            assert(o[i as int] == ms@[i as int]@);
            assert(o.take(i + 1).drop_last() =~= o.take(i as int));
            assert(o.take(i + 1).last() == o[i as int]);
            assert forall|x: Seq<char>| names_before.contains(x) implies seqs(names@).contains(x) by {
                let j = choose|j: int| 0 <= j < names_before.len() && names_before[j] == x;
                assert(seqs(names@)[j] == x);
            }
            if has_name_in(reach, module_name(o[i as int])) && !seen {
                assert(seqs(names@).last() == n@);
            }
        }
        i = i + 1;
    }
    proof {
        assert(o.take(o.len() as int) =~= o);
        assert forall|m: Seq<char>| #[trigger] reach.contains(m) implies exists|i: int|
            0 <= i < out@.len() && out@[i].0@ == module_name(m) by {
            if max_depth > 0 {
                lemma_within_occurs(e, (max_depth - 1) as nat, m);
            }
            let k = choose|k: int| 0 <= k < o.len() && o[k] == m;
            assert(has_name_in(reach, module_name(o[k])));
            let j = choose|j: int| 0 <= j < names@.len() && seqs(names@)[j] == module_name(m);
            assert(out@[j].0@ == names@[j]@);
        }
    }
    out
}

/// A module path that occurs has a last recorded version.
proof fn lemma_lastver_some(o: Seq<Seq<char>>, i: int)
    requires
        0 <= i < o.len(),
    ensures
        last_version(o, module_name(o[i])) is Some,
    decreases o.len(),
{
    if i < o.len() - 1 && module_name(o.last()) != module_name(o[i]) {
        assert(o.drop_last()[i] == o[i]);
        lemma_lastver_some(o.drop_last(), i);
    }
}


/// The (name, version) pairs of Go packages.
pub open spec fn package_pairs(d: Seq<GoPackages>) -> Seq<(Seq<char>, Seq<char>)> {
    d.map_values(|p: GoPackages| (p.name@, p.version@))
}

/// The dependencies to analyse: those that the module graph resolves to when
/// `go mod graph` succeeded (its output is given) and resolves to any,
/// otherwise the direct dependencies.
pub open spec fn go_resolution(
    graph_output: Option<Seq<char>>,
    direct: Seq<GoPackages>,
    max_depth: u32,
) -> Seq<(Seq<char>, Seq<char>)> {
    match graph_output {
        Some(o) => if graph_dependencies(o, max_depth).len() > 0 {
            graph_dependencies(o, max_depth)
        } else {
            package_pairs(direct)
        },
        None => package_pairs(direct),
    }
}

/// Resolves all Go dependencies: the module graph when there is one,
/// falling back to the direct dependencies.
pub fn resolve_go_dependencies(
    graph_output: Option<&str>,
    direct_deps: &[GoPackages],
    max_depth: u32,
) -> (r: Vec<(String, String)>)
    ensures
        pairs(r@) == go_resolution(
            match graph_output {
                Some(o) => Some(o@),
                None => None,
            },
            direct_deps@,
            max_depth,
        ),
{
    match graph_output {
        Some(o) => {
            let deps = parse_go_mod_graph_output(o, max_depth);
            if deps.len() > 0 {
                return deps;
            }
        },
        None => {},
    }
    let mut out: Vec<(String, String)> = Vec::new();
    let mut i: usize = 0;
    while i < direct_deps.len()
        invariant
            i <= direct_deps@.len(),
            pairs(out@) == package_pairs(direct_deps@).take(i as int),
        decreases direct_deps@.len() - i,
    {
        let ghost before = pairs(out@);
        let item = (direct_deps[i].name.clone(), direct_deps[i].version.clone());
        out.push(item);
        assert(pairs(out@) =~= before.push((direct_deps@[i as int].name@, direct_deps@[i as int].version@)));
        assert(pairs(out@) =~= package_pairs(direct_deps@).take(i + 1));
        i = i + 1;
    }
    assert(package_pairs(direct_deps@).take(direct_deps@.len() as int) =~= package_pairs(
        direct_deps@,
    ));
    out
}

/// Line comments (`//` or `#`) of a `go.mod` file.
pub open spec fn go_comment_pattern() -> Seq<char> {
    r"(?m)^(.*?)\s*(//|#).*?$"@
}

/// `require` directives, single or in a block.
pub open spec fn go_require_pattern() -> Seq<char> {
    r"require\s*(?:\(\s*)?((?:[\w./-]+\s+v[\d][\w\d.-]+(?:-\w+)?(?:\+\w+)?\s*)+)\)?"@
}

/// A `module version` pair inside a `require` directive.
pub open spec fn go_dependency_pattern() -> Seq<char> {
    r"([\w./-]+)\s+(v[\d]+(?:\.\d+)*(?:-\S+)?)"@
}

/// The views of Go packages.
pub open spec fn go_views(v: Seq<GoPackages>) -> Seq<(Seq<char>, Seq<char>)> {
    v.map_values(|p: GoPackages| (p.name@, p.version@))
}

/// The module and version of groups 1 and 2 of each match, in order; a
/// match always has both.
pub open spec fn module_pairs(ms: Seq<Groups>) -> Seq<(Seq<char>, Seq<char>)>
    decreases ms.len(),
{
    if ms.len() == 0 {
        Seq::empty()
    } else {
        let rest = module_pairs(ms.drop_last());
        match (group(ms.last(), 1), group(ms.last(), 2)) {
            (Some(n), Some(v)) => rest.push((n, v)),
            _ => rest,
        }
    }
}

/// The modules required by the `require` directives whose dependency lists
/// are the groups 1 of `blocks`, in order.
pub open spec fn required_modules(blocks: Seq<Groups>) -> Seq<(Seq<char>, Seq<char>)>
    decreases blocks.len(),
{
    if blocks.len() == 0 {
        Seq::empty()
    } else {
        required_modules(blocks.drop_last()) + match group(blocks.last(), 1) {
            Some(b) => module_pairs(regex_captures_iter(go_dependency_pattern(), b)),
            None => Seq::empty(),
        }
    }
}

/// The direct dependencies of a `go.mod` file: comments are removed, then
/// the modules of its `require` directives are listed in order; nothing
/// when one of the patterns does not compile.
pub open spec fn go_dependencies(content: Seq<char>) -> Seq<(Seq<char>, Seq<char>)> {
    if regex_compile_error(go_comment_pattern()) is Some || regex_compile_error(go_require_pattern()) is Some
        || regex_compile_error(go_dependency_pattern()) is Some {
        Seq::empty()
    } else {
        required_modules(
            regex_captures_iter(
                go_require_pattern(),
                regex_replace_all(go_comment_pattern(), content, "$1"@),
            ),
        )
    }
}

/// The modules of groups 1 and 2 of each match (see `module_pairs`).
pub fn modules_from(ms: &Vec<Vec<Option<String>>>) -> (r: Vec<GoPackages>)
    ensures
        go_views(r@) == module_pairs(matches_view(ms@)),
{
    let ghost mv = matches_view(ms@);
    let mut out: Vec<GoPackages> = Vec::new();
    let mut i: usize = 0;
    while i < ms.len()
        invariant
            i <= ms@.len(),
            mv == matches_view(ms@),
            go_views(out@) == module_pairs(mv.take(i as int)),
        decreases ms@.len() - i,
    {
        assert(mv.take(i + 1).drop_last() =~= mv.take(i as int));
        assert(mv[i as int] == groups_view(ms@[i as int]));
        match (group_exec(&ms[i], 1), group_exec(&ms[i], 2)) {
            (Some(n), Some(v)) => {
                let ghost before = go_views(out@);
                out.push(GoPackages { name: from_chars(n.as_slice()), version: from_chars(v.as_slice()) });
                assert(go_views(out@) =~= before.push((n@, v@)));
            },
            _ => {},
        }
        i = i + 1;
    }
    assert(mv.take(mv.len() as int) =~= mv);
    out
}

/// The direct dependencies of a `go.mod` file (see `go_dependencies`).
pub fn get_go_dependencies(content_string: String) -> (r: Vec<GoPackages>)
    ensures
        go_views(r@) == go_dependencies(content_string@),
{
    let cleaned = match regex_replace(r"(?m)^(.*?)\s*(//|#).*?$", content_string.as_str(), "$1") {
        Ok(c) => c,
        Err(_) => {
            return Vec::new();
        },
    };
    let blocks = match regex_all(
        r"require\s*(?:\(\s*)?((?:[\w./-]+\s+v[\d][\w\d.-]+(?:-\w+)?(?:\+\w+)?\s*)+)\)?",
        cleaned.as_str(),
    ) {
        Ok(b) => b,
        Err(_) => {
            return Vec::new();
        },
    };
    // The dependency pattern must compile, whether or not anything is required.
    match regex_all(r"([\w./-]+)\s+(v[\d]+(?:\.\d+)*(?:-\S+)?)", "") {
        Ok(_) => {},
        Err(_) => {
            return Vec::new();
        },
    }
    let ghost bv = matches_view(blocks@);
    let mut out: Vec<GoPackages> = Vec::new();
    let mut i: usize = 0;
    while i < blocks.len()
        invariant
            i <= blocks@.len(),
            bv == matches_view(blocks@),
            go_views(out@) == required_modules(bv.take(i as int)),
        decreases blocks@.len() - i,
    {
        assert(bv.take(i + 1).drop_last() =~= bv.take(i as int));
        assert(bv[i as int] == groups_view(blocks@[i as int]));
        match group_exec(&blocks[i], 1) {
            Some(b) => {
                let bs = from_chars(b.as_slice());
                match regex_all(r"([\w./-]+)\s+(v[\d]+(?:\.\d+)*(?:-\S+)?)", bs.as_str()) {
                    Ok(ms) => {
                        let ghost before = go_views(out@);
                        let mut more = modules_from(&ms);
                        let ghost mv = go_views(more@);
                        out.append(&mut more);
                        assert(go_views(out@) =~= before + mv);
                    },
                    Err(_) => {
                        return Vec::new();
                    },
                }
            },
            None => {},
        }
        i = i + 1;
    }
    assert(bv.take(bv.len() as int) =~= bv);
    out
}

/// The text pieces of the first element matching `inner` inside the first
/// element matching `outer` of an HTML document, in document order
/// (scraper's `Html::parse_document`, `Selector::parse`, `select` and
/// `text`); `None` when either selector does not parse or matches nothing.
pub uninterp spec fn html_nested_text(html: Seq<char>, outer: Seq<char>, inner: Seq<char>) -> Option<Seq<Seq<char>>>;

/// Runs the two selectors of `html_nested_text` over `html` with scraper.
#[verifier::external_body]
fn nested_text(html: &str, outer: &str, inner: &str) -> (r: Option<Vec<String>>)
    ensures
        html_nested_text(html@, outer@, inner@) == match r {
            Some(v) => Some(string_views(v@)),
            None => None::<Seq<Seq<char>>>,
        },
{
    let document = scraper::Html::parse_document(html);
    let outer = scraper::Selector::parse(outer).ok()?;
    let inner = scraper::Selector::parse(inner).ok()?;
    let found = document.select(&outer).next()?.select(&inner).next()?;
    Some(found.text().map(|t| t.to_string()).collect())
}

/// The selector of the license section of a pkg.go.dev page.
pub open spec fn license_section_selector() -> Seq<char> {
    "section.License"@
}

/// The selector of the license name inside that section.
pub open spec fn license_title_selector() -> Seq<char> {
    "h2.go-textTitle div"@
}

/// The license named on a pkg.go.dev page: the text pieces of the title
/// inside its license section, joined by spaces and trimmed.
pub open spec fn html_license(html: Seq<char>) -> Option<Seq<char>> {
    match html_nested_text(html, license_section_selector(), license_title_selector()) {
        Some(pieces) => Some(trim(join(pieces, " "@))),
        None => None,
    }
}

/// The license named on a pkg.go.dev page (see `html_license`).
pub fn extract_license_from_html(html: &str) -> (r: Option<String>)
    ensures
        match r {
            Some(l) => html_license(html@) == Some(l@),
            None => html_license(html@) is None,
        },
{
    let found = nested_text(html, "section.License", "h2.go-textTitle div");
    match found {
        Some(pieces) => {
            let mut parts: Vec<Vec<char>> = Vec::new();
            let mut i: usize = 0;
            while i < pieces.len()
                invariant
                    i <= pieces@.len(),
                    seqs(parts@) == string_views(pieces@).take(i as int),
                decreases pieces@.len() - i,
            {
                let c = to_chars(pieces[i].as_str());
                let ghost before = seqs(parts@);
                parts.push(c);
                assert(seqs(parts@) =~= before.push(pieces@[i as int]@));
                assert(string_views(pieces@).take(i + 1) =~= string_views(pieces@).take(i as int).push(
                    pieces@[i as int]@,
                ));
                i = i + 1;
            }
            assert(string_views(pieces@).take(pieces@.len() as int) =~= string_views(pieces@));
            let joined = join_exec(&parts, " ");
            let t = trimmed(joined.as_slice());
            Some(from_chars(t.as_slice()))
        },
        None => None,
    }
}

/// What one request for a pkg.go.dev license page gave.
#[derive(Debug, Clone)]
pub enum FetchOutcome {
    /// The request failed.
    Failed,
    /// The server answered 429 Too Many Requests.
    TooManyRequests,
    /// The server answered with success, and the page's text when it could
    /// be read.
    Page(Option<String>),
    /// The server answered with another status.
    Refused,
}

/// What to do after a request for a license page.
#[derive(Debug, Clone, PartialEq, Eq)]
pub enum FetchAction {
    /// Wait this many seconds, then ask again.
    Retry(u64),
    /// Stop, with this license.
    Done(String),
}

/// How many times a license page is asked for at most.
pub open spec fn max_fetch_attempts() -> u32 {
    7
}

/// The license reported when no page named one.
pub open spec fn unknown_go_license() -> Seq<char> {
    "Unknown"@
}

/// The attempts made and the next action after a request, when `attempts`
/// requests had been answered 429 before it: a 429 is retried after 12
/// seconds while fewer than `max_fetch_attempts` were made; a readable
/// page gives the license it names (see `html_license`); anything else
/// stops with `Unknown`.
pub open spec fn fetch_next(attempts: u32, outcome: FetchOutcome) -> (int, Option<u64>, Option<Seq<char>>) {
    match outcome {
        FetchOutcome::TooManyRequests => if attempts + 1 < max_fetch_attempts() {
            (attempts + 1, Some(12u64), None)
        } else {
            (attempts + 1, None, Some(unknown_go_license()))
        },
        FetchOutcome::Page(Some(html)) => match html_license(html@) {
            Some(l) => (attempts as int, None, Some(l)),
            None => (attempts as int, None, Some(unknown_go_license())),
        },
        _ => (attempts as int, None, Some(unknown_go_license())),
    }
}

/// The step of a license-page fetch after a request (see `fetch_next`):
/// the attempts made so far and what to do.
pub fn go_fetch_step(attempts: u32, outcome: FetchOutcome) -> (r: (u32, FetchAction))
    requires
        attempts < max_fetch_attempts(),
    ensures
        r.0 == fetch_next(attempts, outcome).0,
        match r.1 {
            FetchAction::Retry(w) => fetch_next(attempts, outcome).1 == Some(w),
            FetchAction::Done(l) => fetch_next(attempts, outcome).1 is None && fetch_next(attempts, outcome).2 == Some(
                l@,
            ),
        },
{
    match outcome {
        FetchOutcome::TooManyRequests => {
            let next = attempts + 1;
            if next < 7 {
                (next, FetchAction::Retry(12))
            } else {
                (next, FetchAction::Done(crate::text::owned("Unknown")))
            }
        },
        FetchOutcome::Page(Some(html)) => match extract_license_from_html(html.as_str()) {
            Some(l) => (attempts, FetchAction::Done(l)),
            None => (attempts, FetchAction::Done(crate::text::owned("Unknown"))),
        },
        _ => (attempts, FetchAction::Done(crate::text::owned("Unknown"))),
    }
}

/// A fetch asks again only while fewer than `max_fetch_attempts` requests
/// were made, so no fetch makes more than that many.
pub proof fn law_fetch_attempts_bounded(attempts: u32, outcome: FetchOutcome)
    requires
        attempts < max_fetch_attempts(),
    ensures
        fetch_next(attempts, outcome).0 <= max_fetch_attempts(),
        fetch_next(attempts, outcome).1 is Some ==> fetch_next(attempts, outcome).0 < max_fetch_attempts(),
{
}

} // verus!
