//! Timestamp-ordered per-thread message store.
//!
//! The front end keeps one store per conversation; this core guarantees the
//! ordering discipline the decoder's actions rely on. The store is an
//! ordered map keyed by message timestamp: inserts and replaces are upserts,
//! a delete removes exactly one key, and the timestamps are the total order
//! within a thread.

use vstd::prelude::*;

use crate::message::{Message, MessageV, SignalAction};

verus! {

/// The association a sequence of keyed entries builds up, later entries
/// overwriting earlier ones.
pub open spec fn seq_to_map(s: Seq<(u64, MessageV)>) -> Map<u64, MessageV>
    decreases s.len(),
{
    if s.len() == 0 {
        Map::empty()
    } else {
        seq_to_map(s.drop_last()).insert(s.last().0, s.last().1)
    }
}

/// No two entries share a key.
pub open spec fn keys_distinct(s: Seq<(u64, MessageV)>) -> bool {
    forall|i: int, j: int| 0 <= i < j < s.len() ==> s[i].0 != s[j].0
}

/// Keys are strictly increasing.
pub open spec fn keys_sorted(s: Seq<(u64, MessageV)>) -> bool {
    forall|i: int, j: int| 0 <= i < j < s.len() ==> s[i].0 < s[j].0
}

/// Each entry's view is the view of the entry: index-wise bridge between
/// the executable entries and their mathematical image.
pub proof fn lemma_views_bridge(v: Vec<(u64, Message)>)
    ensures
        v.deep_view().len() == v@.len(),
        forall|i: int| 0 <= i < v@.len() ==> #[trigger] v.deep_view()[i] == (
            v@[i].0,
            v@[i].1.deep_view(),
        ),
{
}

/// What a key-distinct entry sequence associates: each entry is found under
/// its own key, and nothing else is in the map.
pub proof fn lemma_seq_to_map_characterize(s: Seq<(u64, MessageV)>)
    requires
        keys_distinct(s),
    ensures
        forall|k: u64| #[trigger] seq_to_map(s).contains_key(k) <==> (exists|i: int|
            0 <= i < s.len() && #[trigger] s[i].0 == k),
        forall|i: int| 0 <= i < s.len() ==> seq_to_map(s)[#[trigger] s[i].0] == s[i].1,
    decreases s.len(),
{
    if s.len() > 0 {
        lemma_seq_to_map_characterize(s.drop_last());
        assert forall|i: int| 0 <= i < s.len() implies seq_to_map(s)[#[trigger] s[i].0] == s[i].1 by {
            if i < s.len() - 1 {
                assert(s.drop_last()[i] == s[i]);
                assert(s[i].0 != s.last().0);
            }
        }
        assert forall|k: u64| #[trigger] seq_to_map(s).contains_key(k) implies (exists|i: int|
            0 <= i < s.len() && #[trigger] s[i].0 == k) by {
            if k != s.last().0 {
                assert(seq_to_map(s.drop_last()).contains_key(k));
                let i = choose|i: int| 0 <= i < s.drop_last().len() && #[trigger] s.drop_last()[i].0 == k;
                assert(s.drop_last()[i].0 == s[i].0);
                assert(s[i].0 == k);
            } else {
                assert(s[s.len() - 1].0 == k);
            }
        }
        assert forall|k: u64| (exists|i: int| 0 <= i < s.len() && #[trigger] s[i].0 == k)
            implies #[trigger] seq_to_map(s).contains_key(k) by {
            let i = choose|i: int| 0 <= i < s.len() && #[trigger] s[i].0 == k;
            if i < s.len() - 1 {
                assert(s.drop_last()[i] == s[i]);
                assert(s.drop_last()[i].0 == k);
            }
        }
    }
}

/// Two strictly sorted entry sequences that build the same association are
/// the same sequence: the store's representation is canonical.
pub proof fn lemma_sorted_canonical(s1: Seq<(u64, MessageV)>, s2: Seq<(u64, MessageV)>)
    requires
        keys_sorted(s1),
        keys_sorted(s2),
        seq_to_map(s1) == seq_to_map(s2),
    ensures
        s1 =~= s2,
    decreases s1.len() + s2.len(),
{
    lemma_seq_to_map_characterize(s1);
    lemma_seq_to_map_characterize(s2);
    if s1.len() == 0 {
        if s2.len() > 0 {
            assert(seq_to_map(s2).contains_key(s2[0].0));
        }
    } else if s2.len() == 0 {
        assert(seq_to_map(s1).contains_key(s1[0].0));
    } else {
        let k1 = s1.last().0;
        let k2 = s2.last().0;
        // the last key of a sorted sequence is its maximum; equal key sets
        // have equal maxima
        assert(seq_to_map(s1).contains_key(k1));
        assert(seq_to_map(s2).contains_key(k2));
        let i2 = choose|i: int| 0 <= i < s2.len() && #[trigger] s2[i].0 == k1;
        let i1 = choose|i: int| 0 <= i < s1.len() && #[trigger] s1[i].0 == k2;
        assert(k1 <= k2 && k2 <= k1) by {
            if i2 < s2.len() - 1 {
                assert(s2[i2].0 < s2[s2.len() - 1].0);
            }
            if i1 < s1.len() - 1 {
                assert(s1[i1].0 < s1[s1.len() - 1].0);
            }
        }
        assert(s1.last().1 == seq_to_map(s1)[k1]);
        assert(s2.last().1 == seq_to_map(s2)[k1]);
        assert(seq_to_map(s1.drop_last()) =~= seq_to_map(s2.drop_last())) by {
            lemma_seq_to_map_characterize(s1.drop_last());
            lemma_seq_to_map_characterize(s2.drop_last());
            assert forall|k: u64| #[trigger] seq_to_map(s1.drop_last()).contains_key(k) implies
                seq_to_map(s2.drop_last()).contains_key(k) && seq_to_map(s2.drop_last())[k]
                == seq_to_map(s1.drop_last())[k] by {
                let i = choose|i: int| 0 <= i < s1.drop_last().len() && #[trigger] s1.drop_last()[i].0 == k;
                assert(s1[i] == s1.drop_last()[i]);
                assert(k < k1);
                assert(seq_to_map(s1).contains_key(k));
                assert(seq_to_map(s2).contains_key(k));
                let j = choose|j: int| 0 <= j < s2.len() && #[trigger] s2[j].0 == k;
                assert(j < s2.len() - 1);
                assert(s2.drop_last()[j].0 == k);
                assert(seq_to_map(s2.drop_last())[k] == s2.drop_last()[j].1);
                assert(seq_to_map(s2)[k] == s2[j].1);
                assert(seq_to_map(s1.drop_last())[k] == s1.drop_last()[i].1);
                assert(seq_to_map(s1)[k] == s1[i].1);
            }
            assert forall|k: u64| #[trigger] seq_to_map(s2.drop_last()).contains_key(k) implies
                seq_to_map(s1.drop_last()).contains_key(k) by {
                let j = choose|j: int| 0 <= j < s2.drop_last().len() && #[trigger] s2.drop_last()[j].0 == k;
                assert(s2[j] == s2.drop_last()[j]);
                assert(k < k1);
                assert(seq_to_map(s2).contains_key(k));
                assert(seq_to_map(s1).contains_key(k));
                let i = choose|i: int| 0 <= i < s1.len() && #[trigger] s1[i].0 == k;
                assert(i < s1.len() - 1);
                assert(s1.drop_last()[i].0 == k);
            }
        }
        lemma_sorted_canonical(s1.drop_last(), s2.drop_last());
        assert(s1 =~= s1.drop_last().push(s1.last()));
        assert(s2 =~= s2.drop_last().push(s2.last()));
    }
}

/// A per-thread message store: entries strictly ordered by timestamp.
pub struct ThreadStore {
    /// The entries, each message under its timestamp, strictly increasing.
    pub entries: Vec<(u64, Message)>,
}

impl ThreadStore {
    /// Entry sequence at the view level.
    pub open spec fn entry_views(self) -> Seq<(u64, MessageV)> {
        self.entries.deep_view()
    }

    /// Entries are strictly ordered by timestamp, and each entry's key is
    /// its message's timestamp.
    pub open spec fn wf(self) -> bool {
        &&& keys_sorted(self.entry_views())
        &&& forall|i: int| 0 <= i < self.entry_views().len() ==> (#[trigger] self.entry_views()[i]).0
            == self.entry_views()[i].1.timestamp
    }

    /// The association the store holds: message views by timestamp.
    pub open spec fn as_map(self) -> Map<u64, MessageV> {
        seq_to_map(self.entry_views())
    }

    /// An empty store.
    pub fn new() -> (s: Self)
        ensures
            s.wf(),
            s.as_map() == Map::<u64, MessageV>::empty(),
            s.entry_views().len() == 0,
    {
        let s = ThreadStore { entries: Vec::new() };
        proof {
            assert(s.entry_views() =~= Seq::<(u64, MessageV)>::empty());
        }
        s
    }

    /// Number of stored messages.
    pub fn len(&self) -> (n: usize)
        ensures
            n == self.entry_views().len(),
    {
        self.entries.len()
    }

    /// The position of the first entry whose timestamp is not below `ts`.
    #[verifier::loop_isolation(false)]
    fn lower_bound(&self, ts: u64) -> (idx: usize)
        requires
            self.wf(),
        ensures
            idx <= self.entry_views().len(),
            forall|j: int| 0 <= j < idx ==> (#[trigger] self.entry_views()[j]).0 < ts,
            forall|j: int| idx <= j < self.entry_views().len() ==> (#[trigger] self.entry_views()[j]).0
                >= ts,
    {
        proof {
            lemma_views_bridge(self.entries);
        }
        let mut idx: usize = 0;
        while idx < self.entries.len()
            invariant
                idx <= self.entries.len(),
                forall|j: int| 0 <= j < idx ==> (#[trigger] self.entry_views()[j]).0 < ts,
            decreases self.entries.len() - idx,
        {
            if self.entries[idx].0 >= ts {
                proof {
                    assert(self.entry_views()[idx as int].0 == self.entries@[idx as int].0);
                    assert forall|j: int| idx <= j < self.entry_views().len() implies (
                    #[trigger] self.entry_views()[j]).0 >= ts by {
                        if j > idx {
                            assert(self.entry_views()[idx as int].0 < self.entry_views()[j].0);
                        }
                    }
                }
                return idx;
            }
            idx += 1;
        }
        idx
    }

    /// Whether a message is stored at the given timestamp.
    pub fn contains(&self, ts: u64) -> (r: bool)
        requires
            self.wf(),
        ensures
            r == self.as_map().contains_key(ts),
    {
        proof {
            lemma_seq_to_map_characterize(self.entry_views());
        }
        let idx = self.lower_bound(ts);
        proof {
            lemma_views_bridge(self.entries);
        }
        if idx < self.entries.len() && self.entries[idx].0 == ts {
            proof {
                assert(self.entry_views()[idx as int].0 == ts);
            }
            true
        } else {
            proof {
                if self.as_map().contains_key(ts) {
                    let i = choose|i: int| 0 <= i < self.entry_views().len()
                        && #[trigger] self.entry_views()[i].0 == ts;
                    if i > idx {
                        assert(self.entry_views()[idx as int].0 < self.entry_views()[i].0);
                    } else if i == idx {
                        assert(self.entry_views()[idx as int].0 == self.entries@[idx as int].0);
                    }
                }
            }
            false
        }
    }

    /// Stores a message under its timestamp, overwriting any message already
    /// stored there.
    #[verifier::rlimit(50)]
    pub fn insert(&mut self, m: Message)
        requires
            old(self).wf(),
        ensures
            final(self).wf(),
            final(self).as_map() == old(self).as_map().insert(m.timestamp, m.deep_view()),
    {
        proof {
            lemma_seq_to_map_characterize(self.entry_views());
            lemma_views_bridge(self.entries);
        }
        let ghost old_views = self.entry_views();
        let ts = m.timestamp;
        let idx = self.lower_bound(ts);
        if idx < self.entries.len() && self.entries[idx].0 == ts {
            self.entries.remove(idx);
            self.entries.insert(idx, (ts, m));
            proof {
                let new_views = self.entry_views();
                assert(new_views =~= old_views.update(idx as int, (ts, m.deep_view())));
                assert forall|i: int, j: int| 0 <= i < j < new_views.len() implies new_views[i].0
                    < new_views[j].0 by {
                    assert(new_views[i].0 == old_views[i].0);
                    assert(new_views[j].0 == old_views[j].0);
                }
                lemma_seq_to_map_characterize(new_views);
                assert forall|k: u64| true implies (#[trigger] self.as_map().contains_key(k)
                    <==> old(self).as_map().insert(ts, m.deep_view()).contains_key(k)) && (
                self.as_map().contains_key(k) ==> self.as_map()[k] == old(self).as_map().insert(
                    ts,
                    m.deep_view(),
                )[k]) by {
                    assert(forall|i: int| 0 <= i < new_views.len() ==> (#[trigger] new_views[i]).0
                        == old_views[i].0);
                    if k == ts {
                        assert(new_views[idx as int].0 == ts);
                        assert(self.as_map()[ts] == new_views[idx as int].1);
                    } else {
                        if self.as_map().contains_key(k) {
                            let i = choose|i: int| 0 <= i < new_views.len()
                                && #[trigger] new_views[i].0 == k;
                            assert(i != idx);
                            assert(old_views[i] == new_views[i]);
                            assert(old(self).as_map()[k] == old_views[i].1);
                        }
                        if old(self).as_map().contains_key(k) {
                            let i = choose|i: int| 0 <= i < old_views.len()
                                && #[trigger] old_views[i].0 == k;
                            assert(i != idx);
                            assert(new_views[i] == old_views[i]);
                            assert(self.as_map()[k] == new_views[i].1);
                        }
                    }
                }
                assert(self.as_map() =~= old(self).as_map().insert(ts, m.deep_view()));
            }
        } else {
            self.entries.insert(idx, (ts, m));
            proof {
                let new_views = self.entry_views();
                assert(new_views =~= old_views.insert(idx as int, (ts, m.deep_view())));
                assert forall|mm: int| idx <= mm < old_views.len() implies old_views[mm].0 > ts by {
                    if mm == idx {
                        assert(old_views[mm].0 != ts);
                    } else {
                        assert(old_views[idx as int].0 < old_views[mm].0);
                    }
                }
                assert forall|i: int, j: int| 0 <= i < j < new_views.len() implies new_views[i].0
                    < new_views[j].0 by {
                    if i < idx && j > idx {
                        assert(old_views[i].0 < ts);
                        assert(old_views[j - 1].0 > ts);
                    } else if j == idx {
                        assert(old_views[i].0 < ts);
                    } else if i == idx {
                        assert(old_views[j - 1].0 > ts);
                    } else if j < idx {
                        assert(old_views[i].0 < old_views[j].0);
                    } else {
                        assert(old_views[i - 1].0 < old_views[j - 1].0);
                    }
                }
                lemma_seq_to_map_characterize(new_views);
                assert forall|k: u64| true implies (#[trigger] self.as_map().contains_key(k)
                    <==> old(self).as_map().insert(ts, m.deep_view()).contains_key(k)) && (
                self.as_map().contains_key(k) ==> self.as_map()[k] == old(self).as_map().insert(
                    ts,
                    m.deep_view(),
                )[k]) by {
                    if k == ts {
                        assert(new_views[idx as int].0 == ts);
                        assert(self.as_map()[ts] == new_views[idx as int].1);
                    } else {
                        if self.as_map().contains_key(k) {
                            let i = choose|i: int| 0 <= i < new_views.len()
                                && #[trigger] new_views[i].0 == k;
                            assert(i != idx);
                            let oi = if i < idx { i } else { i - 1 };
                            assert(old_views[oi].0 == k);
                            assert(old(self).as_map()[k] == old_views[oi].1);
                            assert(old(self).as_map().contains_key(k));
                        }
                        if old(self).as_map().contains_key(k) {
                            let i = choose|i: int| 0 <= i < old_views.len()
                                && #[trigger] old_views[i].0 == k;
                            let ni = if i < idx { i } else { i + 1 };
                            assert(new_views[ni].0 == k);
                            assert(self.as_map()[k] == new_views[ni].1);
                        }
                    }
                }
                assert(self.as_map() =~= old(self).as_map().insert(ts, m.deep_view()));
            }
        }
    }

    /// Removes the message stored at the given timestamp. Removing a
    /// timestamp that is not present leaves the store unchanged.
    pub fn remove(&mut self, ts: u64)
        requires
            old(self).wf(),
        ensures
            final(self).wf(),
            final(self).as_map() == old(self).as_map().remove(ts),
            !old(self).as_map().contains_key(ts) ==> *final(self) == *old(self),
    {
        proof {
            lemma_seq_to_map_characterize(self.entry_views());
        }
        let ghost old_views = self.entry_views();
        let idx = self.lower_bound(ts);
        if idx < self.entries.len() && self.entries[idx].0 == ts {
            self.entries.remove(idx);
            proof {
                assert(old_views[idx as int].0 == ts);
                let new_views = self.entry_views();
                assert(new_views =~= old_views.remove(idx as int));
                assert forall|i: int, j: int| 0 <= i < j < new_views.len() implies new_views[i].0
                    < new_views[j].0 by {}
                lemma_seq_to_map_characterize(new_views);
                assert forall|k: u64| true implies (#[trigger] self.as_map().contains_key(k) <==> old(
                    self,
                ).as_map().remove(ts).contains_key(k)) && (self.as_map().contains_key(k)
                    ==> self.as_map()[k] == old(self).as_map().remove(ts)[k]) by {
                    if k != ts {
                        if self.as_map().contains_key(k) {
                            let i = choose|i: int| 0 <= i < new_views.len()
                                && #[trigger] new_views[i].0 == k;
                            let oi = if i < idx { i } else { i + 1 };
                            assert(old_views[oi].0 == k);
                            assert(old(self).as_map()[k] == old_views[oi].1);
                        }
                        if old(self).as_map().contains_key(k) {
                            let i = choose|i: int| 0 <= i < old_views.len()
                                && #[trigger] old_views[i].0 == k;
                            assert(i != idx);
                            let ni = if i < idx { i } else { i - 1 };
                            assert(new_views[ni].0 == k);
                            assert(self.as_map()[k] == new_views[ni].1);
                        }
                    } else {
                        if self.as_map().contains_key(ts) {
                            let i = choose|i: int| 0 <= i < new_views.len()
                                && #[trigger] new_views[i].0 == ts;
                            let oi = if i < idx { i } else { i + 1 };
                            assert(old_views[oi].0 == ts && oi != idx);
                        }
                    }
                }
                assert(self.as_map() =~= old(self).as_map().remove(ts));
            }
        } else {
            proof {
                if self.as_map().contains_key(ts) {
                    let i = choose|i: int| 0 <= i < old_views.len() && #[trigger] old_views[i].0
                        == ts;
                    assert(i < idx || idx <= i);
                }
                assert(self.as_map() =~= old(self).as_map().remove(ts));
            }
        }
    }

    /// Applies one decoded action to the store, as the spec of the decoder's
    /// consumer demands: inserts and replaces are upserts, a delete removes
    /// exactly one key, and the cache-population signal has no history
    /// effect.
    pub fn apply(&mut self, action: SignalAction)
        requires
            old(self).wf(),
        ensures
            final(self).wf(),
            final(self).as_map() == match action.deep_view() {
                crate::message::ActionV::Contact => old(self).as_map(),
                crate::message::ActionV::Message(m, _) => old(self).as_map().insert(m.timestamp, m),
                crate::message::ActionV::Replace(t_old, m) => old(self).as_map().remove(
                    t_old,
                ).insert(m.timestamp, m),
                crate::message::ActionV::Delete(t) => old(self).as_map().remove(t),
            },
            action matches SignalAction::Delete(t) && !old(self).as_map().contains_key(t)
                ==> *final(self) == *old(self),
    {
        match action {
            SignalAction::Contact => {},
            SignalAction::Message(m, _) => {
                self.insert(m);
            },
            SignalAction::Replace(t_old, m) => {
                self.remove(t_old);
                self.insert(m);
            },
            SignalAction::Delete(t) => {
                self.remove(t);
            },
        }
    }
}


impl ThreadStore {
    /// Replays a batch of stored messages into the store, each inserted
    /// under its timestamp, in the order given. Together with
    /// [`lemma_replay_order_independent`] and [`lemma_store_canonical`],
    /// replaying the same timestamp-distinct messages in any order builds
    /// the identical store.
    #[verifier::loop_isolation(false)]
    pub fn replay(&mut self, ms: Vec<Message>)
        requires
            old(self).wf(),
        ensures
            final(self).wf(),
            final(self).as_map() == map_after_inserts(old(self).as_map(), ms.deep_view()),
    {
        let mut ms = ms;
        let ghost all = ms.deep_view();
        let total = ms.len();
        proof {
            crate::message::lemma_vec_deep_view(ms);
            assert(all.len() == total);
        }
        let mut done: usize = 0;
        while ms.len() > 0
            invariant
                all.len() <= usize::MAX,
                done + ms@.len() == all.len(),
                forall|i: int| 0 <= i < ms@.len() ==> #[trigger] ms@[i].deep_view() == all[
                    done + i],
                self.wf(),
                self.as_map() == map_after_inserts(old(self).as_map(), all.subrange(0, done as int)),
            decreases ms.len(),
        {
            let ghost before = self.as_map();
            let m = ms.remove(0);
            proof {
                assert(m.deep_view() == all[done as int]);
            }
            self.insert(m);
            done += 1;
            proof {
                crate::message::lemma_vec_deep_view(ms);
                let prefix = all.subrange(0, done as int);
                assert(prefix.drop_last() =~= all.subrange(0, done as int - 1));
                assert(self.as_map() == map_after_inserts(old(self).as_map(), prefix));
            }
        }
        proof {
            assert(all.subrange(0, all.len() as int) =~= all);
        }
    }
}

/// Edit atomicity: applying a replace of `t_old` by `m` to a history that
/// contains an entry at `t_old` yields a history with `t_old` absent and
/// `m.timestamp` present, holding exactly `m`. This is the association
/// [`ThreadStore::apply`] produces for a `Replace` action.
pub proof fn lemma_replace_atomic(before: Map<u64, MessageV>, t_old: u64, m: MessageV)
    requires
        before.contains_key(t_old),
        t_old != m.timestamp,
    ensures
        !before.remove(t_old).insert(m.timestamp, m).contains_key(t_old),
        before.remove(t_old).insert(m.timestamp, m).contains_key(m.timestamp),
        before.remove(t_old).insert(m.timestamp, m)[m.timestamp] == m,
{
}

/// Messages' timestamps are pairwise distinct.
pub open spec fn ts_distinct(ms: Seq<MessageV>) -> bool {
    forall|i: int, j: int| 0 <= i < j < ms.len() ==> ms[i].timestamp != ms[j].timestamp
}

/// The association after inserting each message of `ms` in order, each under
/// its timestamp, starting from `m0`.
pub open spec fn map_after_inserts(m0: Map<u64, MessageV>, ms: Seq<MessageV>) -> Map<u64, MessageV>
    decreases ms.len(),
{
    if ms.len() == 0 {
        m0
    } else {
        map_after_inserts(m0, ms.drop_last()).insert(ms.last().timestamp, ms.last())
    }
}

/// What inserting timestamp-distinct messages yields: each message is found
/// under its own timestamp, other keys keep their prior binding, and no new
/// keys appear.
pub proof fn lemma_inserts_characterize(m0: Map<u64, MessageV>, ms: Seq<MessageV>)
    requires
        ts_distinct(ms),
    ensures
        forall|i: int| 0 <= i < ms.len() ==> map_after_inserts(m0, ms).contains_key(
            (#[trigger] ms[i]).timestamp,
        ) && map_after_inserts(m0, ms)[ms[i].timestamp] == ms[i],
        forall|k: u64| #[trigger] map_after_inserts(m0, ms).contains_key(k) <==> (
        m0.contains_key(k) || exists|i: int| 0 <= i < ms.len() && (#[trigger] ms[i]).timestamp
            == k),
        forall|k: u64| map_after_inserts(m0, ms).contains_key(k) && (forall|i: int|
            0 <= i < ms.len() ==> (#[trigger] ms[i]).timestamp != k) ==> map_after_inserts(
            m0,
            ms,
        )[k] == m0[k],
    decreases ms.len(),
{
    if ms.len() > 0 {
        lemma_inserts_characterize(m0, ms.drop_last());
        let prior = map_after_inserts(m0, ms.drop_last());
        let full = map_after_inserts(m0, ms);
        assert forall|i: int| 0 <= i < ms.len() implies full.contains_key(
            (#[trigger] ms[i]).timestamp,
        ) && full[ms[i].timestamp] == ms[i] by {
            if i < ms.len() - 1 {
                assert(ms.drop_last()[i] == ms[i]);
                assert(ms[i].timestamp != ms.last().timestamp);
            }
        }
        assert forall|k: u64| #[trigger] full.contains_key(k) implies (m0.contains_key(k)
            || exists|i: int| 0 <= i < ms.len() && (#[trigger] ms[i]).timestamp == k) by {
            if k != ms.last().timestamp {
                assert(prior.contains_key(k));
                if !m0.contains_key(k) {
                    let i = choose|i: int| 0 <= i < ms.drop_last().len()
                        && (#[trigger] ms.drop_last()[i]).timestamp == k;
                    assert(ms[i].timestamp == k);
                }
            } else {
                assert(ms[ms.len() - 1].timestamp == k);
            }
        }
        assert forall|k: u64| (m0.contains_key(k) || exists|i: int| 0 <= i < ms.len() && (
        #[trigger] ms[i]).timestamp == k) implies #[trigger] full.contains_key(k) by {
            if m0.contains_key(k) {
                assert(prior.contains_key(k));
            } else {
                let i = choose|i: int| 0 <= i < ms.len() && (#[trigger] ms[i]).timestamp == k;
                if i < ms.len() - 1 {
                    assert(ms.drop_last()[i] == ms[i]);
                    assert(prior.contains_key(k));
                }
            }
        }
        assert forall|k: u64| full.contains_key(k) && (forall|i: int| 0 <= i < ms.len() ==> (
        #[trigger] ms[i]).timestamp != k) implies full[k] == m0[k] by {
            assert(ms[ms.len() - 1].timestamp != k);
            assert(forall|i: int| 0 <= i < ms.drop_last().len() ==> (
            #[trigger] ms.drop_last()[i]).timestamp != k);
        }
    }
}

/// History replay ordering independence: delivering the same
/// timestamp-distinct messages in any order and inserting each under its
/// timestamp yields the same association, whatever the starting history.
pub proof fn lemma_replay_order_independent(
    m0: Map<u64, MessageV>,
    ms1: Seq<MessageV>,
    ms2: Seq<MessageV>,
)
    requires
        ts_distinct(ms1),
        ms1.to_multiset() == ms2.to_multiset(),
    ensures
        ts_distinct(ms2),
        map_after_inserts(m0, ms1) == map_after_inserts(m0, ms2),
{
    broadcast use vstd::seq_lib::group_to_multiset_ensures;

    // distinct timestamps make the elements themselves distinct
    assert(ms1.no_duplicates());
    ms1.lemma_multiset_has_no_duplicates();
    ms2.lemma_multiset_has_no_duplicates_conv();
    assert(ms2.no_duplicates());
    assert forall|i: int, j: int| 0 <= i < j < ms2.len() implies ms2[i].timestamp
        != ms2[j].timestamp by {
        if ms2[i].timestamp == ms2[j].timestamp {
            assert(ms2[i] != ms2[j]);
            assert(ms2.contains(ms2[i]) && ms2.contains(ms2[j]));
            assert(ms2.to_multiset().count(ms2[i]) > 0 && ms2.to_multiset().count(ms2[j]) > 0);
            assert(ms1.to_multiset().count(ms2[i]) > 0 && ms1.to_multiset().count(ms2[j]) > 0);
            assert(ms1.contains(ms2[i]));
            assert(ms1.contains(ms2[j]));
            let a = choose|a: int| 0 <= a < ms1.len() && ms1[a] == ms2[i];
            let b = choose|b: int| 0 <= b < ms1.len() && ms1[b] == ms2[j];
            assert(a != b);
            assert(ms1[a].timestamp != ms1[b].timestamp);
        }
    }
    lemma_inserts_characterize(m0, ms1);
    lemma_inserts_characterize(m0, ms2);
    let f1 = map_after_inserts(m0, ms1);
    let f2 = map_after_inserts(m0, ms2);
    assert forall|k: u64| #[trigger] f1.contains_key(k) implies f2.contains_key(k) && f2[k]
        == f1[k] by {
        if exists|i: int| 0 <= i < ms1.len() && (#[trigger] ms1[i]).timestamp == k {
            let i = choose|i: int| 0 <= i < ms1.len() && (#[trigger] ms1[i]).timestamp == k;
            assert(ms1.contains(ms1[i]));
            assert(ms1.to_multiset().count(ms1[i]) > 0);
            assert(ms2.to_multiset().count(ms1[i]) > 0);
            assert(ms2.contains(ms1[i]));
            let j = choose|j: int| 0 <= j < ms2.len() && ms2[j] == ms1[i];
            assert(f2[k] == ms2[j]);
            assert(f1[k] == ms1[i]);
        } else {
            assert(forall|j: int| 0 <= j < ms2.len() ==> (#[trigger] ms2[j]).timestamp != k) by {
                assert forall|j: int| 0 <= j < ms2.len() implies (#[trigger] ms2[j]).timestamp
                    != k by {
                    if ms2[j].timestamp == k {
                        assert(ms2.contains(ms2[j]));
                        assert(ms2.to_multiset().count(ms2[j]) > 0);
                        assert(ms1.to_multiset().count(ms2[j]) > 0);
                        assert(ms1.contains(ms2[j]));
                        let i = choose|i: int| 0 <= i < ms1.len() && ms1[i] == ms2[j];
                        assert(ms1[i].timestamp == k);
                    }
                }
            }
            assert(m0.contains_key(k));
            assert(f1[k] == m0[k] && f2[k] == m0[k]);
        }
    }
    assert forall|k: u64| #[trigger] f2.contains_key(k) implies f1.contains_key(k) by {
        if exists|j: int| 0 <= j < ms2.len() && (#[trigger] ms2[j]).timestamp == k {
            let j = choose|j: int| 0 <= j < ms2.len() && (#[trigger] ms2[j]).timestamp == k;
            assert(ms2.contains(ms2[j]));
            assert(ms2.to_multiset().count(ms2[j]) > 0);
            assert(ms1.to_multiset().count(ms2[j]) > 0);
            assert(ms1.contains(ms2[j]));
            let i = choose|i: int| 0 <= i < ms1.len() && ms1[i] == ms2[j];
            assert(ms1[i].timestamp == k);
        }
    }
    assert(f1 =~= f2);
}

/// Two well-formed stores holding the same association are the same store,
/// entry for entry: with [`lemma_replay_order_independent`], replaying
/// history in any order builds the identical store.
pub proof fn lemma_store_canonical(s1: ThreadStore, s2: ThreadStore)
    requires
        s1.wf(),
        s2.wf(),
        s1.as_map() == s2.as_map(),
    ensures
        s1.entry_views() == s2.entry_views(),
{
    lemma_sorted_canonical(s1.entry_views(), s2.entry_views());
}

} // verus!
