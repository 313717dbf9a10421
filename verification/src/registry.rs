//! Registries of live streaming sessions, one per session kind (logs, exec,
//! pull), each keyed by the UI-chosen session id.
//!
//! A registry owns one handle per key. Inserting under a key that is already
//! taken hands the previous handle back so the caller can cancel it before
//! anything else observes the replacement; removing hands the handle back
//! for the same reason. Stopping an unknown session is a successful no-op.
//!
//! The registry is an association list with distinct keys, so its view is a
//! map from key to handle and "at most one live session per key" holds by
//! construction.

use vstd::prelude::*;

verus! {

/// A registry of session handles keyed by session id. `H` is whatever the
/// caller needs to cancel or reach the session: a task handle, an abort
/// handle, or a record of several such.
pub struct SessionRegistry<H> {
    entries: Vec<(String, H)>,
}

impl<H> SessionRegistry<H> {
    /// The keys currently registered.
    pub closed spec fn dom(self) -> Set<Seq<char>> {
        Set::new(
            |k: Seq<char>|
                exists|i: int|
                    0 <= i < self.entries@.len() && #[trigger] self.entries@[i].0@ == k,
        )
    }

    /// The registry as a map from session id to handle.
    pub closed spec fn view(self) -> Map<Seq<char>, H> {
        Map::new(
            |k: Seq<char>| self.dom().contains(k),
            |k: Seq<char>|
                self.entries@[choose|i: int|
                    0 <= i < self.entries@.len() && #[trigger] self.entries@[i].0@ == k].1,
        )
    }

    /// Keys are distinct: at most one live session per id.
    pub closed spec fn wf(self) -> bool {
        forall|i: int, j: int|
            0 <= i < j < self.entries@.len() ==> #[trigger] self.entries@[i].0@
                != #[trigger] self.entries@[j].0@
    }

    proof fn lemma_entry_is_view(self, i: int)
        requires
            self.wf(),
            0 <= i < self.entries@.len(),
        ensures
            self.dom().contains(self.entries@[i].0@),
            self@.dom().contains(self.entries@[i].0@),
            self@[self.entries@[i].0@] == self.entries@[i].1,
    {
        let k = self.entries@[i].0@;
        assert(self.dom().contains(k));
        let w = choose|w: int| 0 <= w < self.entries@.len() && #[trigger] self.entries@[w].0@ == k;
        assert(w == i);
    }

    proof fn lemma_dom_is_view_dom(self)
        ensures
            self@.dom() =~= self.dom(),
    {
    }

    /// An empty registry.
    pub fn new() -> (r: Self)
        ensures
            r.wf(),
            r@ == Map::<Seq<char>, H>::empty(),
    {
        let r = SessionRegistry { entries: Vec::new() };
        proof {
            assert(r.dom() =~= Set::empty());
            assert(r@ =~= Map::empty());
        }
        r
    }

    fn position_of(&self, session_id: &String) -> (r: Option<usize>)
        requires
            self.wf(),
        ensures
            match r {
                Some(i) => 0 <= i < self.entries@.len() && self.entries@[i as int].0@
                    == session_id@,
                None => !self.dom().contains(session_id@),
            },
    {
        let n = self.entries.len();
        for i in 0..n
            invariant
                n == self.entries@.len(),
                forall|j: int| 0 <= j < i ==> #[trigger] self.entries@[j].0@ != session_id@,
        {
            let hit = {
                let pair: &(String, H) = &self.entries[i];
                pair.0.eq(session_id)
            };
            if hit {
                return Some(i);
            }
        }
        None
    }

    /// Whether a session is live under this id.
    pub fn contains(&self, session_id: &String) -> (r: bool)
        requires
            self.wf(),
        ensures
            r == self@.dom().contains(session_id@),
    {
        proof {
            self.lemma_dom_is_view_dom();
            if self.dom().contains(session_id@) {
                let i = choose|i: int|
                    0 <= i < self.entries@.len() && #[trigger] self.entries@[i].0@ == session_id@;
                self.lemma_entry_is_view(i);
            }
        }
        self.position_of(session_id).is_some()
    }

    /// Look up the live session under this id.
    pub fn get(&self, session_id: &String) -> (r: Option<&H>)
        requires
            self.wf(),
        ensures
            match r {
                Some(h) => self@.dom().contains(session_id@) && *h == self@[session_id@],
                None => !self@.dom().contains(session_id@),
            },
    {
        proof {
            self.lemma_dom_is_view_dom();
        }
        match self.position_of(session_id) {
            Some(i) => {
                proof {
                    self.lemma_entry_is_view(i as int);
                }
                Some(&self.entries[i].1)
            },
            None => None,
        }
    }

    /// Remove the session under this id, handing its handle back for
    /// cancellation. On an unknown id the registry is unchanged and `None`
    /// comes back: stopping a missing session is a successful no-op.
    pub fn remove(&mut self, session_id: &String) -> (removed: Option<H>)
        requires
            old(self).wf(),
        ensures
            final(self).wf(),
            final(self)@ =~= old(self)@.remove(session_id@),
            match removed {
                Some(h) => old(self)@.dom().contains(session_id@) && h == old(self)@[session_id@],
                None => !old(self)@.dom().contains(session_id@),
            },
    {
        let ghost sid = session_id@;
        let pos = self.position_of(session_id);
        match pos {
            Some(i) => {
                proof {
                    self.lemma_entry_is_view(i as int);
                }
                let ghost pre = self.entries@;
                let pair = self.entries.remove(i);
                proof {
                    let post = self.entries@;
                    assert(forall|j: int| 0 <= j < i ==> post[j] == pre[j]);
                    assert(forall|j: int| i <= j < post.len() ==> post[j] == pre[j + 1]);
                    assert forall|j1: int, j2: int| 0 <= j1 < j2 < post.len() implies post[j1].0@
                        != post[j2].0@ by {
                        let a1: int = if j1 < i {
                            j1
                        } else {
                            j1 + 1
                        };
                        let a2: int = if j2 < i {
                            j2
                        } else {
                            j2 + 1
                        };
                        assert(post[j1] == pre[a1]);
                        assert(post[j2] == pre[a2]);
                    }
                    assert(self.wf());
                    assert forall|k: Seq<char>| self.dom().contains(k) implies old(
                        self,
                    ).dom().contains(k) && k != sid by {
                        let w = choose|w: int|
                            0 <= w < post.len() && #[trigger] post[w].0@ == k;
                        let a: int = if w < i {
                            w
                        } else {
                            w + 1
                        };
                        assert(pre[a].0@ == k);
                        assert(a != i);
                        assert(pre[i as int].0@ == sid);
                    }
                    assert forall|k: Seq<char>|
                        old(self).dom().contains(k) && k != sid implies self.dom().contains(
                        k,
                    ) by {
                        let a = choose|a: int|
                            0 <= a < pre.len() && #[trigger] pre[a].0@ == k;
                        assert(a != i);
                        let w: int = if a < i {
                            a
                        } else {
                            a - 1
                        };
                        assert(post[w].0@ == k);
                    }
                    assert forall|k: Seq<char>| self.dom().contains(k) implies self@[k] == old(
                        self,
                    )@[k] by {
                        let w = choose|w: int|
                            0 <= w < post.len() && #[trigger] post[w].0@ == k;
                        let a: int = if w < i {
                            w
                        } else {
                            w + 1
                        };
                        self.lemma_entry_is_view(w);
                        old(self).lemma_entry_is_view(a);
                        assert(post[w] == pre[a]);
                    }
                    self.lemma_dom_is_view_dom();
                    old(self).lemma_dom_is_view_dom();
                    assert(self@ =~= old(self)@.remove(sid));
                }
                Some(pair.1)
            },
            None => {
                proof {
                    self.lemma_dom_is_view_dom();
                    assert(self@ =~= old(self)@.remove(sid));
                }
                None
            },
        }
    }

    /// Register a session under this id. If a prior session is live under
    /// the same id, its handle is returned so the caller cancels it before
    /// the replacement is observed; the registry then holds exactly the new
    /// handle under that id.
    pub fn insert(&mut self, session_id: String, handle: H) -> (prior: Option<H>)
        requires
            old(self).wf(),
        ensures
            final(self).wf(),
            final(self)@ =~= old(self)@.insert(session_id@, handle),
            match prior {
                Some(h) => old(self)@.dom().contains(session_id@) && h == old(self)@[session_id@],
                None => !old(self)@.dom().contains(session_id@),
            },
    {
        let ghost sid = session_id@;
        let prior = self.remove(&session_id);
        let ghost mid = *self;
        let ghost pre = self.entries@;
        proof {
            mid.lemma_dom_is_view_dom();
            assert(!mid.dom().contains(sid));
            assert(forall|j: int| 0 <= j < pre.len() ==> #[trigger] pre[j].0@ != sid);
        }
        self.entries.push((session_id, handle));
        proof {
            let post = self.entries@;
            assert(forall|j: int| 0 <= j < pre.len() ==> post[j] == pre[j]);
            assert(post[pre.len() as int].0@ == sid);
            assert(self.wf());
            assert forall|k: Seq<char>| self.dom().contains(k) implies mid.dom().insert(
                sid,
            ).contains(k) by {
                let w = choose|w: int| 0 <= w < post.len() && #[trigger] post[w].0@ == k;
                if w < pre.len() {
                    assert(pre[w].0@ == k);
                }
            }
            assert forall|k: Seq<char>| mid.dom().insert(sid).contains(k) implies self
                .dom()
                .contains(k) by {
                if k == sid {
                    assert(post[pre.len() as int].0@ == k);
                } else {
                    let a = choose|a: int| 0 <= a < pre.len() && #[trigger] pre[a].0@ == k;
                    assert(post[a].0@ == k);
                }
            }
            assert forall|k: Seq<char>| self.dom().contains(k) implies self@[k] == mid@.insert(
                sid,
                handle,
            )[k] by {
                let w = choose|w: int| 0 <= w < post.len() && #[trigger] post[w].0@ == k;
                self.lemma_entry_is_view(w);
                if k == sid {
                    assert(w == pre.len());
                } else {
                    assert(w < pre.len());
                    mid.lemma_entry_is_view(w);
                }
            }
            self.lemma_dom_is_view_dom();
            assert(self@ =~= mid@.insert(sid, handle));
            assert(self@ =~= old(self)@.insert(sid, handle));
        }
        prior
    }
}

/// Session replacement law. Registering twice under the same id leaves
/// exactly one entry under that id — the second handle — and the second
/// registration hands the first handle back, so its cancellation happens
/// before anyone observes the replacement.
pub proof fn lemma_session_replacement<H>(m0: Map<Seq<char>, H>, sid: Seq<char>, h1: H, h2: H)
    requires
        !m0.dom().contains(sid),
    ensures
        m0.insert(sid, h1).insert(sid, h2)[sid] == h2,
        m0.insert(sid, h1).insert(sid, h2).dom() =~= m0.dom().insert(sid),
        m0.insert(sid, h1).dom().contains(sid) && m0.insert(sid, h1)[sid] == h1,
{
}

/// Stop idempotence law. Removing an absent id leaves the registry as it
/// was, and removing twice is indistinguishable from removing once.
pub proof fn lemma_stop_idempotence<H>(m0: Map<Seq<char>, H>, sid: Seq<char>)
    ensures
        !m0.dom().contains(sid) ==> m0.remove(sid) =~= m0,
        m0.remove(sid).remove(sid) =~= m0.remove(sid),
        !m0.remove(sid).dom().contains(sid),
{
}

} // verus!
