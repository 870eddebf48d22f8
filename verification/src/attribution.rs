//! Process-tree resolution and device attribution.
//!
//! A device's metrics are attributed to the target process tree exactly when
//! some process id of the tree appears among the process ids the device
//! reports as running compute or graphics work.
//!
//! The tree itself is resolved by a breadth-first walk over the OS process
//! table.  Listing the children of a pid is outside work, so the walk is a
//! small state machine: the caller repeatedly takes the next pid to query
//! and reports back the children it found (or none, when the query failed).
use vstd::prelude::*;

verus! {

proof fn lemma_push_contains(s: Seq<u32>, x: u32, p: u32)
    ensures
        s.push(x).contains(p) == (s.contains(p) || p == x),
{
    if s.push(x).contains(p) {
        let t = choose|t: int| 0 <= t < s.push(x).len() && s.push(x)[t] == p;
        if t < s.len() {
            assert(s[t] == p);
        }
    }
    if s.contains(p) {
        let t = choose|t: int| 0 <= t < s.len() && s[t] == p;
        assert(s.push(x)[t] == p);
    }
    assert(s.push(x)[s.len() as int] == x);
}

fn vec_contains(v: &Vec<u32>, x: u32) -> (r: bool)
    ensures
        r == v@.contains(x),
{
    let n = v.len();
    let mut i: usize = 0;
    while i < n
        invariant
            n == v@.len(),
            i <= n,
            forall|t: int| 0 <= t < i ==> v@[t] != x,
        decreases n - i,
    {
        if v[i] == x {
            assert(v@[i as int] == x);
            return true;
        }
        i = i + 1;
    }
    assert(!v@.contains(x));
    false
}

/// True exactly when some process id of ours appears in the device's
/// compute or graphics process list.
pub fn device_in_use(our_pids: &Vec<u32>, compute: &Vec<u32>, graphics: &Vec<u32>) -> (r: bool)
    ensures
        r == exists|p: u32|
            our_pids@.contains(p) && (compute@.contains(p) || graphics@.contains(p)),
{
    let n = our_pids.len();
    let mut i: usize = 0;
    while i < n
        invariant
            n == our_pids@.len(),
            i <= n,
            forall|t: int|
                0 <= t < i ==> !(compute@.contains(#[trigger] our_pids@[t]) || graphics@.contains(
                    our_pids@[t],
                )),
        decreases n - i,
    {
        let p = our_pids[i];
        if vec_contains(compute, p) || vec_contains(graphics, p) {
            assert(our_pids@.contains(p));
            return true;
        }
        i = i + 1;
    }
    assert forall|p: u32|
        our_pids@.contains(p) implies !(compute@.contains(p) || graphics@.contains(p)) by {
        let t = choose|t: int| 0 <= t < our_pids@.len() && our_pids@[t] == p;
        assert(!(compute@.contains(our_pids@[t]) || graphics@.contains(our_pids@[t])));
    }
    false
}

/// Breadth-first resolution of a process tree, one child-listing query at a
/// time.  `discovered` holds every pid found so far (the root and every
/// reported child, without duplicates); `pending` holds the discovered pids
/// whose children have not been asked for yet.
pub struct TreeWalk {
    discovered: Vec<u32>,
    pending: Vec<u32>,
}

impl TreeWalk {
    /// Every pid found so far, in discovery order.
    pub closed spec fn discovered_seq(self) -> Seq<u32> {
        self.discovered@
    }

    /// Pids whose children are still to be asked for.
    pub closed spec fn pending_seq(self) -> Seq<u32> {
        self.pending@
    }

    /// No pid is discovered twice, and pending pids were all discovered.
    pub open spec fn wf(self) -> bool {
        &&& forall|i: int, j: int|
            0 <= i < j < self.discovered_seq().len() ==> self.discovered_seq()[i]
                != self.discovered_seq()[j]
        &&& forall|i: int|
            0 <= i < self.pending_seq().len() ==> self.discovered_seq().contains(
                #[trigger] self.pending_seq()[i],
            )
    }

    /// Starts a walk at the root pid.
    pub fn new(root: u32) -> (r: TreeWalk)
        ensures
            r.wf(),
            r.discovered_seq() == seq![root],
            r.pending_seq() == seq![root],
    {
        let mut discovered: Vec<u32> = Vec::new();
        discovered.push(root);
        let mut pending: Vec<u32> = Vec::new();
        pending.push(root);
        let r = TreeWalk { discovered, pending };
        proof {
            assert(r.discovered_seq() =~= seq![root]);
            assert(r.pending_seq() =~= seq![root]);
            assert(r.discovered_seq()[0] == root);
        }
        r
    }

    /// Takes the next pid whose children should be listed, in first-in
    /// first-out order; `None` once the walk is complete.
    pub fn next_query(&mut self) -> (r: Option<u32>)
        requires
            old(self).wf(),
        ensures
            final(self).wf(),
            final(self).discovered_seq() == old(self).discovered_seq(),
            match r {
                Some(p) => old(self).pending_seq().len() > 0 && p == old(self).pending_seq()[0]
                    && final(self).pending_seq() == old(self).pending_seq().drop_first(),
                None => old(self).pending_seq().len() == 0 && final(self).pending_seq() == old(
                    self,
                ).pending_seq(),
            },
    {
        if self.pending.is_empty() {
            None
        } else {
            let p = self.pending.remove(0);
            proof {
                assert(self.pending_seq() =~= old(self).pending_seq().drop_first());
            }
            Some(p)
        }
    }

    /// Records the children reported for a queried pid: every pid not seen
    /// before is added to the discovered set and scheduled for its own query.
    pub fn report_children(&mut self, children: &Vec<u32>)
        requires
            old(self).wf(),
        ensures
            final(self).wf(),
            forall|p: u32|
                final(self).discovered_seq().contains(p) == (old(self).discovered_seq().contains(p)
                    || children@.contains(p)),
            forall|p: u32|
                final(self).pending_seq().contains(p) == (old(self).pending_seq().contains(p) || (
                children@.contains(p) && !old(self).discovered_seq().contains(p))),
    {
        let n = children.len();
        let mut i: usize = 0;
        while i < n
            invariant
                n == children@.len(),
                i <= n,
                self.wf(),
                forall|p: u32|
                    self.discovered_seq().contains(p) == (old(self).discovered_seq().contains(p)
                        || children@.take(i as int).contains(p)),
                forall|p: u32|
                    self.pending_seq().contains(p) == (old(self).pending_seq().contains(p) || (
                    children@.take(i as int).contains(p) && !old(
                        self,
                    ).discovered_seq().contains(p))),
            decreases n - i,
        {
            let c = children[i];
            proof {
                assert(children@.take(i + 1) =~= children@.take(i as int).push(c));
            }
            let ghost before = self.discovered_seq();
            let ghost before_pending = self.pending_seq();
            let seen = vec_contains(&self.discovered, c);
            if !seen {
                self.discovered.push(c);
                self.pending.push(c);
                proof {
                    assert(self.discovered_seq() =~= before.push(c));
                    assert(self.pending_seq() =~= before_pending.push(c));
                    assert(self.wf()) by {
                        assert forall|x: int, y: int|
                            0 <= x < y < self.discovered_seq().len() implies self.discovered_seq()[x]
                            != self.discovered_seq()[y] by {
                            if y == before.len() {
                                assert(self.discovered_seq()[x] == before[x]);
                                assert(before.contains(before[x]));
                            }
                        }
                        assert forall|x: int|
                            0 <= x < self.pending_seq().len() implies self.discovered_seq().contains(
                            #[trigger] self.pending_seq()[x],
                        ) by {
                            if x < before_pending.len() {
                                lemma_push_contains(before, c, before_pending[x]);
                            } else {
                                lemma_push_contains(before, c, c);
                            }
                        }
                    }
                    assert forall|p: u32|
                        self.discovered_seq().contains(p) == (old(
                            self,
                        ).discovered_seq().contains(p) || children@.take(i + 1).contains(p)) by {
                        lemma_push_contains(before, c, p);
                        lemma_push_contains(children@.take(i as int), c, p);
                    }
                    assert forall|p: u32|
                        self.pending_seq().contains(p) == (old(self).pending_seq().contains(p) || (
                        children@.take(i + 1).contains(p) && !old(
                            self,
                        ).discovered_seq().contains(p))) by {
                        lemma_push_contains(before_pending, c, p);
                        lemma_push_contains(children@.take(i as int), c, p);
                    }
                }
            } else {
                proof {
                    assert forall|p: u32|
                        self.discovered_seq().contains(p) == (old(
                            self,
                        ).discovered_seq().contains(p) || children@.take(i + 1).contains(p)) by {
                        lemma_push_contains(children@.take(i as int), c, p);
                    }
                    assert forall|p: u32|
                        self.pending_seq().contains(p) == (old(self).pending_seq().contains(p) || (
                        children@.take(i + 1).contains(p) && !old(
                            self,
                        ).discovered_seq().contains(p))) by {
                        lemma_push_contains(children@.take(i as int), c, p);
                    }
                }
            }
            i = i + 1;
        }
        proof {
            assert(children@.take(n as int) =~= children@);
        }
    }

    /// The resolved process set so far.
    pub fn pids(&self) -> (r: &Vec<u32>)
        ensures
            r@ == self.discovered_seq(),
    {
        &self.discovered
    }
}

} // verus!
