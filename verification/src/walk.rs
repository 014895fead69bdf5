//! The walk over transitive dependencies, up to a maximum depth, that the C
//! and C++ analyses perform: the decisions of the walk, with the lookups of
//! each package's own dependencies left to the caller.

use vstd::prelude::*;

use crate::text::{eq_str, owned, to_chars};

verus! {

/// A dependency: name and version.
pub type Dep = (Seq<char>, Seq<char>);

/// A package waiting for its dependencies to be looked up, with its depth.
pub type Pending = (Seq<char>, Seq<char>, u32);

/// The state of a walk: the dependencies found so far (in the order found),
/// the names seen, and the packages still to look up (a stack).
pub struct WalkView {
    pub found: Seq<Dep>,
    pub visited: Seq<Seq<char>>,
    pub pending: Seq<Pending>,
}

/// The start of a walk from the direct dependencies: all of them are found
/// and seen, and all wait at depth 0.
pub open spec fn walk_start(direct: Seq<Dep>) -> WalkView {
    WalkView {
        found: direct,
        visited: direct.map_values(|d: Dep| d.0),
        pending: direct.map_values(|d: Dep| (d.0, d.1, 0u32)),
    }
}

/// The pending packages once those that are already as deep as allowed are
/// dropped from the top of the stack.
pub open spec fn skip_deep(p: Seq<Pending>, max_depth: u32) -> Seq<Pending>
    decreases p.len(),
{
    if p.len() == 0 {
        p
    } else if p.last().2 >= max_depth {
        skip_deep(p.drop_last(), max_depth)
    } else {
        p
    }
}

/// A dependency of a package at `depth`: found, seen and waiting one level
/// deeper, unless its name was seen before.
pub open spec fn add_found(v: WalkView, d: Dep, depth: u32) -> WalkView {
    if v.visited.contains(d.0) {
        v
    } else {
        WalkView {
            found: v.found.push(d),
            visited: v.visited.push(d.0),
            pending: v.pending.push((d.0, d.1, (depth + 1) as u32)),
        }
    }
}

/// The dependencies of a package at `depth`, added in order.
pub open spec fn add_all(v: WalkView, ds: Seq<Dep>, depth: u32) -> WalkView
    decreases ds.len(),
{
    if ds.len() == 0 {
        v
    } else {
        add_found(add_all(v, ds.drop_last(), depth), ds.last(), depth)
    }
}

/// The views of name and version pairs.
pub open spec fn dep_seq(v: Seq<(String, String)>) -> Seq<Dep> {
    v.map_values(|p: (String, String)| (p.0@, p.1@))
}

/// A walk over transitive dependencies.
pub struct DependencyWalk {
    found: Vec<(String, String)>,
    visited: Vec<String>,
    pending: Vec<(String, String, u32)>,
    current: u32,
    max_depth: u32,
}

impl DependencyWalk {
    /// The state of the walk.
    pub closed spec fn view(&self) -> WalkView {
        WalkView {
            found: dep_seq(self.found@),
            visited: self.visited@.map_values(|s: String| s@),
            pending: self.pending@.map_values(|p: (String, String, u32)| (p.0@, p.1@, p.2)),
        }
    }

    /// The depth of the package last handed out.
    pub closed spec fn current(&self) -> u32 {
        self.current
    }

    /// The maximum depth looked up.
    pub closed spec fn max_depth(&self) -> u32 {
        self.max_depth
    }

    /// No package waits deeper than the maximum depth.
    pub open spec fn wf(&self) -> bool {
        forall|k: int| 0 <= k < self.view().pending.len() ==> #[trigger] self.view().pending[k].2 <= self.max_depth()
    }

    /// A walk from the direct dependencies, looking dependencies up to
    /// `max_depth` levels deep.
    pub fn new(direct: &Vec<(String, String)>, max_depth: u32) -> (w: Self)
        ensures
            w.view() == walk_start(dep_seq(direct@)),
            w.max_depth() == max_depth,
            w.wf(),
    {
        let mut found: Vec<(String, String)> = Vec::new();
        let mut visited: Vec<String> = Vec::new();
        let mut pending: Vec<(String, String, u32)> = Vec::new();
        let ghost ds = dep_seq(direct@);
        let mut i: usize = 0;
        while i < direct.len()
            invariant
                i <= direct@.len(),
                ds == dep_seq(direct@),
                dep_seq(found@) == ds.take(i as int),
                visited@.map_values(|s: String| s@) == ds.take(i as int).map_values(|d: Dep| d.0),
                pending@.map_values(|p: (String, String, u32)| (p.0@, p.1@, p.2)) == ds.take(i as int).map_values(
                    |d: Dep| (d.0, d.1, 0u32),
                ),
            decreases direct@.len() - i,
        {
            let ghost d = ds[i as int];
            assert(d == (direct@[i as int].0@, direct@[i as int].1@));
            let ghost vm = visited@.map_values(|s: String| s@);
            let ghost pm = pending@.map_values(|p: (String, String, u32)| (p.0@, p.1@, p.2));
            let ghost fm = dep_seq(found@);
            let n = owned(direct[i].0.as_str());
            let v = owned(direct[i].1.as_str());
            found.push((owned(direct[i].0.as_str()), owned(direct[i].1.as_str())));
            visited.push(owned(direct[i].0.as_str()));
            pending.push((n, v, 0));
            assert(ds.take(i + 1) =~= ds.take(i as int).push(d));
            assert(dep_seq(found@) =~= fm.push(d));
            assert(visited@.map_values(|s: String| s@) =~= vm.push(d.0));
            assert(pending@.map_values(|p: (String, String, u32)| (p.0@, p.1@, p.2)) =~= pm.push((d.0, d.1, 0u32)));
            assert(ds.take(i + 1).map_values(|x: Dep| x.0) =~= ds.take(i as int).map_values(|x: Dep| x.0).push(d.0));
            assert(ds.take(i + 1).map_values(|x: Dep| (x.0, x.1, 0u32)) =~= ds.take(i as int).map_values(
                |x: Dep| (x.0, x.1, 0u32),
            ).push((d.0, d.1, 0u32)));
            i = i + 1;
        }
        assert(ds.take(direct@.len() as int) =~= ds);
        DependencyWalk { found, visited, pending, current: 0, max_depth }
    }

    /// The next package whose dependencies are to be looked up: packages
    /// already at the maximum depth are dropped from the top of the stack,
    /// and the next one is taken off it; `None` when none is left.
    pub fn next_request(&mut self) -> (r: Option<(String, String)>)
        requires
            old(self).wf(),
        ensures
            final(self).wf(),
            final(self).max_depth() == old(self).max_depth(),
            final(self).view().found == old(self).view().found,
            final(self).view().visited == old(self).view().visited,
            ({
                let q = skip_deep(old(self).view().pending, old(self).max_depth());
                if q.len() == 0 {
                    r is None && final(self).view().pending == q
                } else {
                    r matches Some(p) && p.0@ == q.last().0 && p.1@ == q.last().1
                        && final(self).view().pending == q.drop_last() && final(self).current()
                        == q.last().2 && final(self).current() < final(self).max_depth()
                }
            }),
    {
        loop
            invariant
                self.wf(),
                self.max_depth == old(self).max_depth,
                self.view().found == old(self).view().found,
                self.view().visited == old(self).view().visited,
                skip_deep(self.view().pending, self.max_depth) == skip_deep(
                    old(self).view().pending,
                    old(self).max_depth(),
                ),
            decreases self.pending@.len(),
        {
            let ghost before = self.view().pending;
            match self.pending.pop() {
                None => {
                    assert(before.len() == 0);
                    return None;
                },
                Some((name, version, depth)) => {
                    assert(before.drop_last() =~= self.view().pending);
                    assert(before.last() == (name@, version@, depth));
                    if depth < self.max_depth {
                        self.current = depth;
                        return Some((name, version));
                    }
                },
            }
        }
    }

    /// Whether a name was seen.
    fn seen(&self, name: &str) -> (r: bool)
        ensures
            r == self.view().visited.contains(name@),
    {
        let n = to_chars(name);
        let mut i: usize = 0;
        while i < self.visited.len()
            invariant
                i <= self.visited@.len(),
                n@ == name@,
                forall|k: int| 0 <= k < i ==> (#[trigger] self.visited@[k])@ != name@,
            decreases self.visited@.len() - i,
        {
            if eq_str(n.as_slice(), self.visited[i].as_str()) {
                assert(self.view().visited[i as int] == name@);
                return true;
            }
            i = i + 1;
        }
        assert forall|k: int| 0 <= k < self.view().visited.len() implies #[trigger] self.view().visited[k] != name@ by {
            assert(self.view().visited[k] == self.visited@[k]@);
        }
        false
    }

    /// Records the dependencies found for the package last handed out: each
    /// one not seen before is found, seen and waits one level deeper.
    pub fn record(&mut self, transitive: Vec<(String, String)>)
        requires
            old(self).wf(),
            old(self).current() < old(self).max_depth(),
        ensures
            final(self).wf(),
            final(self).max_depth() == old(self).max_depth(),
            final(self).current() == old(self).current(),
            final(self).view() == add_all(old(self).view(), dep_seq(transitive@), old(self).current()),
    {
        let ghost ts = dep_seq(transitive@);
        let ghost start = self.view();
        let depth = self.current + 1;
        let n = transitive.len();
        let mut k: usize = 0;
        for t in it: transitive.into_iter()
            invariant
                ts == it.seq().map_values(|p: (String, String)| (p.0@, p.1@)),
                ts.len() == n,
                k == it.index(),
                self.wf(),
                self.current == old(self).current,
                self.max_depth == old(self).max_depth,
                depth == self.current + 1,
                depth <= self.max_depth,
                start == old(self).view(),
                self.view() == add_all(start, ts.take(k as int), self.current),
        {
            assert(k < n);
            let (name, version) = t;
            assert(ts.take(k + 1).drop_last() =~= ts.take(k as int));
            assert(ts[k as int] == (name@, version@));
            if !self.seen(name.as_str()) {
                let ghost v0 = self.view();
                let n2 = owned(name.as_str());
                let n3 = owned(name.as_str());
                let v2 = owned(version.as_str());
                self.found.push((name, version));
                self.visited.push(n2);
                self.pending.push((n3, v2, depth));
                assert(self.view().found =~= v0.found.push(ts[k as int]));
                assert(self.view().visited =~= v0.visited.push(ts[k as int].0));
                assert(self.view().pending =~= v0.pending.push((ts[k as int].0, ts[k as int].1, depth)));
            }
            k = k + 1;
        }
        assert(ts.take(ts.len() as int) =~= ts);
    }

    /// The dependencies found: the direct ones, then each transitive one the
    /// first time its name was seen.
    pub fn finish(self) -> (r: Vec<(String, String)>)
        ensures
            dep_seq(r@) == self.view().found,
    {
        self.found
    }
}

/// Every package that waits in a walk is at most as deep as the maximum
/// depth: starting from the direct dependencies at depth 0 and adding the
/// dependencies of a package shallower than the maximum keeps it so.
pub proof fn law_walk_depth_bounded(v: WalkView, ds: Seq<Dep>, depth: u32, max_depth: u32)
    requires
        forall|k: int| 0 <= k < v.pending.len() ==> #[trigger] v.pending[k].2 <= max_depth,
        depth < max_depth,
    ensures
        forall|k: int|
            0 <= k < add_all(v, ds, depth).pending.len() ==> #[trigger] add_all(v, ds, depth).pending[k].2
                <= max_depth,
    decreases ds.len(),
{
    if ds.len() > 0 {
        law_walk_depth_bounded(v, ds.drop_last(), depth, max_depth);
        let w = add_all(v, ds.drop_last(), depth);
        let r = add_found(w, ds.last(), depth);
        assert(add_all(v, ds, depth) == r);
        assert forall|k: int| 0 <= k < r.pending.len() implies #[trigger] r.pending[k].2 <= max_depth by {
            if k < w.pending.len() {
                assert(r.pending[k] == w.pending[k]);
            }
        }
    }
}

/// A walk never finds a name twice among the dependencies it adds: every
/// dependency added by looking up a package has a name not seen before,
/// and the names it adds are all different.
pub proof fn law_walk_adds_new_names(v: WalkView, ds: Seq<Dep>, depth: u32)
    requires
        v.found.len() == v.visited.len(),
    ensures
        add_all(v, ds, depth).found.len() == add_all(v, ds, depth).visited.len(),
        add_all(v, ds, depth).found.len() >= v.found.len(),
        add_all(v, ds, depth).found.subrange(0, v.found.len() as int) == v.found,
        forall|i: int|
            v.found.len() <= i < add_all(v, ds, depth).found.len() ==> !v.visited.contains(
                (#[trigger] add_all(v, ds, depth).found[i]).0,
            ),
        forall|i: int, j: int|
            v.found.len() <= i < j < add_all(v, ds, depth).found.len() ==> (
            #[trigger] add_all(v, ds, depth).found[i]).0 != (#[trigger] add_all(
                v,
                ds,
                depth,
            ).found[j]).0,
        add_all(v, ds, depth).visited.subrange(0, v.visited.len() as int) == v.visited,
        forall|i: int|
            v.visited.len() <= i < add_all(v, ds, depth).visited.len() ==> #[trigger] add_all(
                v,
                ds,
                depth,
            ).visited[i] == add_all(v, ds, depth).found[i].0,
    decreases ds.len(),
{
    if ds.len() > 0 {
        law_walk_adds_new_names(v, ds.drop_last(), depth);
        let w = add_all(v, ds.drop_last(), depth);
        let d = ds.last();
        if !w.visited.contains(d.0) {
            let w2 = add_found(w, d, depth);
            assert forall|i: int| v.found.len() <= i < w2.found.len() implies !v.visited.contains(
                (#[trigger] w2.found[i]).0,
            ) by {
                if i == w.found.len() {
                    if v.visited.contains(d.0) {
                        let j = choose|j: int| 0 <= j < v.visited.len() && v.visited[j] == d.0;
                        assert(w.visited[j] == v.visited[j]);
                    }
                } else {
                    assert(w2.found[i] == w.found[i]);
                }
            }
            assert forall|i: int, j: int| v.found.len() <= i < j < w2.found.len() implies (
            #[trigger] w2.found[i]).0 != (#[trigger] w2.found[j]).0 by {
                if j == w.found.len() {
                    assert(w2.found[i] == w.found[i]);
                    assert(w.visited[i] == w.found[i].0);
                } else {
                    assert(w2.found[i] == w.found[i]);
                    assert(w2.found[j] == w.found[j]);
                }
            }
            assert(w2.found.subrange(0, v.found.len() as int) =~= w.found.subrange(0, v.found.len() as int));
            assert(w2.visited.subrange(0, v.visited.len() as int) =~= w.visited.subrange(0, v.visited.len() as int));
        }
    }
}

} // verus!
