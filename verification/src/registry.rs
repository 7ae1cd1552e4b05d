//! The shared registry of in-flight message identifiers.
//!
//! An identifier is inserted before its first transmission, each retry loop
//! polls membership before resending, and the dispatch path removes the
//! identifier when the matching acknowledgment arrives — the sole way a
//! retry loop stops. Removal of an untracked identifier is a harmless no-op.

use vstd::prelude::*;
use crate::message::MessageId;

verus! {

/// The set of message identifiers awaiting acknowledgment.
pub struct UnackedRegistry {
    ids: Vec<MessageId>,
}

impl View for UnackedRegistry {
    type V = Set<MessageId>;

    closed spec fn view(&self) -> Set<MessageId> {
        Set::new(|x: MessageId| self.ids@.contains(x))
    }
}

impl UnackedRegistry {
    /// No identifier is tracked twice.
    pub closed spec fn wf(&self) -> bool {
        self.ids@.no_duplicates()
    }

    pub fn new() -> (r: UnackedRegistry)
        ensures
            r@ == Set::<MessageId>::empty(),
            r.wf(),
    {
        let r = UnackedRegistry { ids: Vec::new() };
        proof {
            assert(r@ =~= Set::<MessageId>::empty());
        }
        r
    }

    /// Is this identifier still awaiting its acknowledgment?
    pub fn contains(&self, id: MessageId) -> (r: bool)
        ensures
            r == self@.contains(id),
    {
        let mut i: usize = 0;
        while i < self.ids.len()
            invariant
                0 <= i <= self.ids.len(),
                forall|k: int| 0 <= k < i ==> self.ids@[k] != id,
            decreases self.ids.len() - i,
        {
            if self.ids[i] == id {
                assert(self.ids@.contains(id));
                return true;
            }
            i += 1;
        }
        assert(!self.ids@.contains(id));
        false
    }

    /// Track an identifier. Inserting one already tracked changes nothing.
    pub fn insert(&mut self, id: MessageId)
        requires
            old(self).wf(),
        ensures
            final(self).wf(),
            final(self)@ == old(self)@.insert(id),
    {
        if self.contains(id) {
            proof {
                assert(self@ =~= old(self)@.insert(id));
            }
            return;
        }
        self.ids.push(id);
        proof {
            let pre = old(self).ids@;
            let post = self.ids@;
            assert forall|x: MessageId| post.contains(x) <==> (pre.contains(x) || x == id) by {
                if post.contains(x) {
                    let k = choose|k: int| 0 <= k < post.len() && post[k] == x;
                    if k < pre.len() {
                        assert(pre[k] == x);
                    }
                } else {
                }
                if pre.contains(x) {
                    let k = choose|k: int| 0 <= k < pre.len() && pre[k] == x;
                    assert(post[k] == x);
                }
                if x == id {
                    assert(post[pre.len() as int] == id);
                }
            }
            assert(self@ =~= old(self)@.insert(id));
            assert forall|a: int, b: int|
                0 <= a < post.len() && 0 <= b < post.len() && a != b implies post[a] != post[b] by {
                if a < pre.len() && b < pre.len() {
                } else if a < pre.len() {
                    assert(post[b] == id);
                    assert(!pre.contains(id));
                    assert(pre[a] == post[a]);
                } else {
                    assert(post[a] == id);
                    assert(!pre.contains(id));
                    assert(b < pre.len());
                    assert(pre[b] == post[b]);
                }
            }
        }
    }

    /// Position of an identifier, if it is tracked.
    fn index_of(&self, id: MessageId) -> (r: Option<usize>)
        ensures
            match r {
                Some(i) => i < self.ids@.len() && self.ids@[i as int] == id,
                None => !self.ids@.contains(id),
            },
    {
        let mut i: usize = 0;
        while i < self.ids.len()
            invariant
                0 <= i <= self.ids.len(),
                forall|k: int| 0 <= k < i ==> self.ids@[k] != id,
            decreases self.ids.len() - i,
        {
            if self.ids[i] == id {
                return Some(i);
            }
            i += 1;
        }
        assert(!self.ids@.contains(id));
        None
    }

    /// Retire an identifier on acknowledgment. Removing one not tracked is a
    /// harmless no-op, never an error: late or duplicate acknowledgments are
    /// benign races.
    pub fn remove(&mut self, id: MessageId)
        requires
            old(self).wf(),
        ensures
            final(self).wf(),
            final(self)@ == old(self)@.remove(id),
    {
        let found = self.index_of(id);
        match found {
            None => {
                proof {
                    assert(self@ =~= old(self)@.remove(id));
                }
            },
            Some(i) => {
                let ghost prev = self.ids@;
                self.ids.remove(i);
                proof {
                    let post = self.ids@;
                    assert(prev.no_duplicates());
                    assert(post == prev.remove(i as int));
                    assert(post.len() == prev.len() - 1);
                    assert(forall|k: int|
                        0 <= k < post.len() ==> #[trigger] post[k] == (if k < i {
                            prev[k]
                        } else {
                            prev[k + 1]
                        }));
                    assert forall|x: MessageId|
                        post.contains(x) <==> (prev.contains(x) && x != id) by {
                        if post.contains(x) {
                            let k = choose|k: int| 0 <= k < post.len() && post[k] == x;
                            if k < i {
                                assert(prev[k] == x);
                                assert(prev[k] != prev[i as int]);
                                assert(x != id);
                            } else {
                                assert(prev[k + 1] == x);
                                assert(prev[k + 1] != prev[i as int]);
                                assert(x != id);
                            }
                        }
                        if prev.contains(x) && x != id {
                            let k = choose|k: int| 0 <= k < prev.len() && prev[k] == x;
                            assert(k != i);
                            if k < i {
                                assert(post[k] == x);
                            } else {
                                assert(post[k - 1] == x);
                            }
                        }
                    }
                    assert(self@ =~= old(self)@.remove(id));
                    assert forall|a: int, b: int|
                        0 <= a < post.len() && 0 <= b < post.len() && a != b implies post[a]
                        != post[b] by {
                        let pa = if a < i {
                            a
                        } else {
                            a + 1
                        };
                        let pb = if b < i {
                            b
                        } else {
                            b + 1
                        };
                        assert(post[a] == prev[pa]);
                        assert(post[b] == prev[pb]);
                        assert(0 <= pa < prev.len());
                        assert(0 <= pb < prev.len());
                        assert(pa != pb);
                        assert(prev[pa] != prev[pb]);
                    }
                }
            },
        }
    }
}

/// A tracked identifier keeps its retry loop alive, and retiring it is the
/// sole and certain stop: after insertion the registry answers membership
/// with `true` until the removal, after which it answers `false`, and no
/// other identifier's entry is disturbed by either step.
pub proof fn lemma_retry_until_acked(s: Set<MessageId>, id: MessageId)
    ensures
        s.insert(id).contains(id),
        !s.insert(id).remove(id).contains(id),
        forall|x: MessageId| x != id ==> (s.insert(id).contains(x) <==> s.contains(x)),
        forall|x: MessageId| x != id ==> (s.remove(id).contains(x) <==> s.contains(x)),
{
}

/// Acknowledging an identifier that is not tracked changes nothing: the
/// removal is a no-op and every other in-flight entry is unaffected.
pub proof fn lemma_ack_untracked(s: Set<MessageId>, id: MessageId)
    requires
        !s.contains(id),
    ensures
        s.remove(id) == s,
{
    assert(s.remove(id) =~= s);
}

} // verus!
