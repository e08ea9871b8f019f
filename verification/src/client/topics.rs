//! A set of subscriptions: topic filters, each with a QoS, in ascending order
//! of the topic filters.

use crate::proto::packet::SubscribeToView;
use crate::proto::{QoS, SubscribeTo};
use crate::text::{
    lemma_string_lt_connected, lemma_string_lt_irreflexive, lemma_string_lt_transitive, str_lt,
    string_lt,
};
use vstd::prelude::*;

verus! {

/// Whether the topic filters of the entries ascend, so that none occurs
/// twice.
pub open spec fn ascending(entries: Seq<SubscribeToView>) -> bool {
    forall|i: int, j: int|
        0 <= i < j < entries.len() ==> string_lt(
            entries[i].topic_filter,
            entries[j].topic_filter,
        )
}

/// The number of entries at the front whose topic filter comes before
/// `topic`: the place of `topic` among ascending entries.
pub open spec fn rank(entries: Seq<SubscribeToView>, topic: Seq<char>) -> int
    decreases entries.len(),
{
    if entries.len() == 0 || !string_lt(entries[0].topic_filter, topic) {
        0
    } else {
        1 + rank(entries.drop_first(), topic)
    }
}

/// Whether ascending entries hold one for `topic`.
pub open spec fn holds(entries: Seq<SubscribeToView>, topic: Seq<char>) -> bool {
    rank(entries, topic) < entries.len() && entries[rank(entries, topic)].topic_filter == topic
}

/// The QoS that ascending entries hold for `topic`, where they hold one.
pub open spec fn lookup(entries: Seq<SubscribeToView>, topic: Seq<char>) -> Option<QoS> {
    if holds(entries, topic) {
        Some(entries[rank(entries, topic)].qos)
    } else {
        None
    }
}

/// Ascending entries with `entry` put in its place, instead of the entry for
/// the same topic filter where there is one.
pub open spec fn spec_insert(entries: Seq<SubscribeToView>, entry: SubscribeToView) -> Seq<
    SubscribeToView,
> {
    if holds(entries, entry.topic_filter) {
        entries.update(rank(entries, entry.topic_filter), entry)
    } else {
        entries.insert(rank(entries, entry.topic_filter), entry)
    }
}

/// Ascending entries without the one for `topic`.
pub open spec fn spec_remove(entries: Seq<SubscribeToView>, topic: Seq<char>) -> Seq<
    SubscribeToView,
> {
    if holds(entries, topic) {
        entries.remove(rank(entries, topic))
    } else {
        entries
    }
}

/// The rank of a topic filter is the one place before which all topic
/// filters come before it, and at which none does.
pub proof fn lemma_rank(entries: Seq<SubscribeToView>, topic: Seq<char>)
    ensures
        0 <= rank(entries, topic) <= entries.len(),
        forall|i: int|
            0 <= i < rank(entries, topic) ==> string_lt(
                (#[trigger] entries[i]).topic_filter,
                topic,
            ),
        rank(entries, topic) < entries.len() ==> !string_lt(
            entries[rank(entries, topic)].topic_filter,
            topic,
        ),
    decreases entries.len(),
{
    if entries.len() == 0 || !string_lt(entries[0].topic_filter, topic) {
    } else {
        let tail = entries.drop_first();
        lemma_rank(tail, topic);
        assert forall|i: int| 0 <= i < rank(entries, topic) implies string_lt(
            (#[trigger] entries[i]).topic_filter,
            topic,
        ) by {
            if i > 0 {
                assert(entries[i] == tail[i - 1]);
            }
        }
    }
}

/// Among ascending entries, the rank of the topic filter at a place is that
/// place.
pub proof fn lemma_rank_at(entries: Seq<SubscribeToView>, place: int)
    requires
        ascending(entries),
        0 <= place < entries.len(),
    ensures
        rank(entries, entries[place].topic_filter) == place,
        holds(entries, entries[place].topic_filter),
{
    let topic = entries[place].topic_filter;
    lemma_rank(entries, topic);
    lemma_string_lt_irreflexive(topic);
    let r = rank(entries, topic);
    if r < place {
        assert(string_lt(entries[r].topic_filter, entries[place].topic_filter));
    } else if r > place {
        assert(string_lt(entries[place].topic_filter, topic));
    }
}

/// Whether `topic` is held comes to whether some entry has it.
pub proof fn lemma_holds(entries: Seq<SubscribeToView>, topic: Seq<char>)
    requires
        ascending(entries),
    ensures
        holds(entries, topic) <==> exists|i: int|
            0 <= i < entries.len() && (#[trigger] entries[i]).topic_filter == topic,
{
    lemma_rank(entries, topic);
    if exists|i: int| 0 <= i < entries.len() && (#[trigger] entries[i]).topic_filter == topic {
        let i = choose|i: int|
            0 <= i < entries.len() && (#[trigger] entries[i]).topic_filter == topic;
        lemma_rank_at(entries, i);
    }
    if holds(entries, topic) {
        assert(entries[rank(entries, topic)].topic_filter == topic);
    }
}

/// Among ascending entries, a topic filter that is not held comes before the
/// entry at its rank and all behind it.
proof fn lemma_rank_gap(entries: Seq<SubscribeToView>, topic: Seq<char>, place: int)
    requires
        ascending(entries),
        !holds(entries, topic),
        rank(entries, topic) <= place < entries.len(),
    ensures
        string_lt(topic, entries[place].topic_filter),
{
    let r = rank(entries, topic);
    lemma_rank(entries, topic);
    lemma_string_lt_connected(topic, entries[r].topic_filter);
    if place > r {
        lemma_string_lt_transitive(topic, entries[r].topic_filter, entries[place].topic_filter);
    }
}

/// Putting an entry in its place keeps the entries ascending, makes the
/// entry the one held for its topic filter, and leaves what is held for the
/// other topic filters as it is.
pub proof fn lemma_insert(entries: Seq<SubscribeToView>, entry: SubscribeToView)
    requires
        ascending(entries),
    ensures
        ascending(spec_insert(entries, entry)),
        lookup(spec_insert(entries, entry), entry.topic_filter) == Some(entry.qos),
        forall|other: Seq<char>|
            other != entry.topic_filter ==> #[trigger] lookup(spec_insert(entries, entry), other)
                == lookup(entries, other),
{
    let topic = entry.topic_filter;
    let r = rank(entries, topic);
    let after = spec_insert(entries, entry);
    lemma_rank(entries, topic);
    assert(ascending(after)) by {
        assert forall|i: int, j: int| 0 <= i < j < after.len() implies string_lt(
            after[i].topic_filter,
            after[j].topic_filter,
        ) by {
            if holds(entries, topic) {
                assert(after[i].topic_filter == entries[i].topic_filter);
                assert(after[j].topic_filter == entries[j].topic_filter);
            } else {
                let i0 = if i < r {
                    i
                } else {
                    i - 1
                };
                let j0 = if j < r {
                    j
                } else {
                    j - 1
                };
                if i != r && j != r {
                    assert(after[i] == entries[i0]);
                    assert(after[j] == entries[j0]);
                } else if i == r {
                    assert(after[j] == entries[j0]);
                    lemma_rank_gap(entries, topic, j0);
                } else {
                    assert(after[i] == entries[i0]);
                }
            }
        }
    }
    lemma_rank_at(after, r);
    assert forall|other: Seq<char>| other != topic implies #[trigger] lookup(after, other)
        == lookup(entries, other) by {
        lemma_holds(after, other);
        lemma_holds(entries, other);
        lemma_rank(after, other);
        lemma_rank(entries, other);
        if holds(entries, other) {
            let i = rank(entries, other);
            let i1 = if holds(entries, topic) || i < r {
                i
            } else {
                i + 1
            };
            assert(after[i1] == entries[i]);
            lemma_rank_at(after, i1);
        }
        if holds(after, other) {
            let i = rank(after, other);
            let i0 = if holds(entries, topic) || i < r {
                i
            } else {
                i - 1
            };
            assert(after[i] == entries[i0]);
            lemma_rank_at(entries, i0);
        }
    }
}

/// Taking an entry out keeps the entries ascending, leaves nothing held for
/// its topic filter, and leaves what is held for the other topic filters as
/// it is.
pub proof fn lemma_remove(entries: Seq<SubscribeToView>, topic: Seq<char>)
    requires
        ascending(entries),
    ensures
        ascending(spec_remove(entries, topic)),
        lookup(spec_remove(entries, topic), topic) is None,
        forall|other: Seq<char>|
            other != topic ==> #[trigger] lookup(spec_remove(entries, topic), other) == lookup(
                entries,
                other,
            ),
{
    let r = rank(entries, topic);
    let after = spec_remove(entries, topic);
    lemma_rank(entries, topic);
    if holds(entries, topic) {
        assert forall|i: int, j: int| 0 <= i < j < after.len() implies string_lt(
            after[i].topic_filter,
            after[j].topic_filter,
        ) by {
            let i0 = if i < r {
                i
            } else {
                i + 1
            };
            let j0 = if j < r {
                j
            } else {
                j + 1
            };
            assert(after[i] == entries[i0]);
            assert(after[j] == entries[j0]);
        }
        assert forall|other: Seq<char>| #[trigger]
            lookup(after, other) == (if other == topic {
                None
            } else {
                lookup(entries, other)
            }) by {
            lemma_holds(after, other);
            lemma_holds(entries, other);
            lemma_rank(after, other);
            lemma_rank(entries, other);
            if holds(entries, other) && other != topic {
                let i = rank(entries, other);
                let i1 = if i < r {
                    i
                } else {
                    i - 1
                };
                assert(after[i1] == entries[i]);
                lemma_rank_at(after, i1);
            }
            if holds(after, other) {
                let i = rank(after, other);
                let i0 = if i < r {
                    i
                } else {
                    i + 1
                };
                assert(after[i] == entries[i0]);
                lemma_rank_at(entries, i0);
            }
        }
    }
}

/// A set of subscriptions.
pub struct Subscriptions {
    entries: Vec<SubscribeTo>,
}

impl View for Subscriptions {
    type V = Seq<SubscribeToView>;

    /// The subscriptions, in ascending order of their topic filters.
    closed spec fn view(&self) -> Seq<SubscribeToView> {
        self.entries.deep_view()
    }
}

impl Subscriptions {
    /// The topic filters ascend.
    pub open spec fn wf(&self) -> bool {
        ascending(self@)
    }

    /// No subscriptions.
    pub fn new() -> (subscriptions: Self)
        ensures
            subscriptions@ == Seq::<SubscribeToView>::empty(),
            subscriptions.wf(),
    {
        let subscriptions = Subscriptions { entries: Vec::new() };
        proof {
            assert(subscriptions@ =~= Seq::<SubscribeToView>::empty());
        }
        subscriptions
    }

    /// The number of subscriptions.
    pub fn len(&self) -> (len: usize)
        ensures
            len == self@.len(),
    {
        self.entries.len()
    }

    /// The subscription at a place.
    pub fn get(&self, place: usize) -> (entry: &SubscribeTo)
        requires
            place < self@.len(),
        ensures
            entry@ == self@[place as int],
    {
        &self.entries[place]
    }

    /// The place of a topic filter: where its entry is, or where it would go.
    pub fn find(&self, topic: &String) -> (place: usize)
        requires
            self.wf(),
        ensures
            place == rank(self@, topic@),
            place <= self@.len(),
    {
        let mut place: usize = 0;
        proof {
            lemma_rank(self@, topic@);
        }
        while place < self.entries.len() && str_lt(
            self.entries[place].topic_filter.as_str(),
            topic.as_str(),
        )
            invariant
                place <= self@.len(),
                self@.len() == self.entries@.len(),
                forall|i: int|
                    0 <= i < place ==> string_lt((#[trigger] self@[i]).topic_filter, topic@),
            decreases self.entries@.len() - place,
        {
            place = place + 1;
        }
        proof {
            let r = rank(self@, topic@);
            if r < place {
                assert(string_lt(self@[r].topic_filter, topic@));
            } else if r > place {
                assert(string_lt(self@[place as int].topic_filter, topic@));
            }
        }
        place
    }

    /// The QoS of the subscription to a topic filter, where there is one.
    pub fn qos(&self, topic: &String) -> (qos: Option<QoS>)
        requires
            self.wf(),
        ensures
            qos == lookup(self@, topic@),
    {
        let place = self.find(topic);
        if place < self.entries.len() && self.entries[place].topic_filter == *topic {
            Some(self.entries[place].qos)
        } else {
            None
        }
    }

    /// Puts a subscription in its place, instead of the one to the same topic
    /// filter where there is one.
    pub fn insert(&mut self, entry: SubscribeTo)
        requires
            old(self).wf(),
        ensures
            final(self).wf(),
            final(self)@ == spec_insert(old(self)@, entry@),
    {
        proof {
            lemma_insert(self@, entry@);
        }
        let place = self.find(&entry.topic_filter);
        if place < self.entries.len() && self.entries[place].topic_filter == entry.topic_filter {
            self.entries.set(place, entry);
            proof {
                assert(self@ =~= old(self)@.update(place as int, entry@));
            }
        } else {
            self.entries.insert(place, entry);
            proof {
                assert(self@ =~= old(self)@.insert(place as int, entry@));
            }
        }
    }

    /// Takes the subscription to a topic filter out, where there is one.
    pub fn remove(&mut self, topic: &String)
        requires
            old(self).wf(),
        ensures
            final(self).wf(),
            final(self)@ == spec_remove(old(self)@, topic@),
    {
        proof {
            lemma_remove(self@, topic@);
        }
        let place = self.find(topic);
        if place < self.entries.len() && self.entries[place].topic_filter == *topic {
            let _ = self.entries.remove(place);
            proof {
                assert(self@ =~= old(self)@.remove(place as int));
            }
        }
    }

    /// A copy of these subscriptions.
    pub fn duplicate(&self) -> (copy: Self)
        ensures
            copy@ == self@,
    {
        Subscriptions { entries: crate::proto::packet::duplicate_subscriptions(&self.entries) }
    }

    /// The subscriptions as a list, in ascending order of their topic
    /// filters.
    pub fn into_vec(self) -> (entries: Vec<SubscribeTo>)
        ensures
            entries.deep_view() == self@,
    {
        self.entries
    }
}

} // verus!
