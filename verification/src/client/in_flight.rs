//! The collections of the session state: what is in flight, by packet
//! identifier, in ascending order of the identifiers.

use crate::proto::PacketIdentifier;
use vstd::prelude::*;

verus! {

/// Whether the identifiers of the entries ascend, so that none occurs twice.
pub open spec fn ascending<V>(entries: Seq<(u16, V)>) -> bool {
    forall|i: int, j: int| 0 <= i < j < entries.len() ==> entries[i].0 < entries[j].0
}

/// The number of entries at the front whose identifier is below `id`: the
/// place of `id` among ascending entries.
pub open spec fn rank<V>(entries: Seq<(u16, V)>, id: u16) -> int
    decreases entries.len(),
{
    if entries.len() == 0 || entries[0].0 >= id {
        0
    } else {
        1 + rank(entries.drop_first(), id)
    }
}

/// Whether ascending entries hold one for `id`.
pub open spec fn holds<V>(entries: Seq<(u16, V)>, id: u16) -> bool {
    rank(entries, id) < entries.len() && entries[rank(entries, id)].0 == id
}

/// The identifiers that ascending entries hold.
pub open spec fn keys<V>(entries: Seq<(u16, V)>) -> Set<u16> {
    Set::new(|id: u16| holds(entries, id))
}

/// Ascending entries with `entry` put in its place, instead of the entry for
/// the same identifier where there is one.
pub open spec fn spec_insert<V>(
    entries: Seq<(u16, V)>,
    entry: (u16, V),
) -> Seq<(u16, V)> {
    if holds(entries, entry.0) {
        entries.update(rank(entries, entry.0), entry)
    } else {
        entries.insert(rank(entries, entry.0), entry)
    }
}

/// Ascending entries without the one for `id`.
pub open spec fn spec_remove<V>(entries: Seq<(u16, V)>, id: u16) -> Seq<
    (u16, V),
> {
    if holds(entries, id) {
        entries.remove(rank(entries, id))
    } else {
        entries
    }
}

/// The rank of an identifier is the one place before which all identifiers
/// are below it, and at which none is.
pub proof fn lemma_rank<V>(entries: Seq<(u16, V)>, id: u16)
    ensures
        0 <= rank(entries, id) <= entries.len(),
        forall|i: int| 0 <= i < rank(entries, id) ==> (#[trigger] entries[i]).0 < id,
        rank(entries, id) < entries.len() ==> entries[rank(entries, id)].0 >= id,
    decreases entries.len(),
{
    if entries.len() == 0 || entries[0].0 >= id {
    } else {
        let tail = entries.drop_first();
        lemma_rank(tail, id);
        assert forall|i: int| 0 <= i < rank(entries, id) implies (#[trigger] entries[i]).0
            < id by {
            if i > 0 {
                assert(entries[i] == tail[i - 1]);
            }
        }
    }
}

/// Among ascending entries, the rank of the identifier at a place is that
/// place.
pub proof fn lemma_rank_at<V>(entries: Seq<(u16, V)>, place: int)
    requires
        ascending(entries),
        0 <= place < entries.len(),
    ensures
        rank(entries, entries[place].0) == place,
        holds(entries, entries[place].0),
{
    let id = entries[place].0;
    lemma_rank(entries, id);
    let r = rank(entries, id);
    if r < place {
        assert(entries[r].0 < entries[place].0);
    } else if r > place {
        assert(entries[place].0 < id);
    }
}

/// Whether `id` is held comes to whether some entry has it.
pub proof fn lemma_holds<V>(entries: Seq<(u16, V)>, id: u16)
    requires
        ascending(entries),
    ensures
        holds(entries, id) <==> exists|i: int| 0 <= i < entries.len() && (#[trigger] entries[i]).0
            == id,
{
    lemma_rank(entries, id);
    if exists|i: int| 0 <= i < entries.len() && (#[trigger] entries[i]).0 == id {
        let i = choose|i: int| 0 <= i < entries.len() && (#[trigger] entries[i]).0 == id;
        lemma_rank_at(entries, i);
    }
    if holds(entries, id) {
        assert(entries[rank(entries, id)].0 == id);
    }
}

/// Putting an entry in its place keeps the entries ascending, adds its
/// identifier to those held, and leaves the other entries as they are.
pub proof fn lemma_insert<V>(entries: Seq<(u16, V)>, entry: (u16, V))
    requires
        ascending(entries),
    ensures
        ascending(spec_insert(entries, entry)),
        keys(spec_insert(entries, entry)) == keys(entries).insert(entry.0),
        rank(spec_insert(entries, entry), entry.0) == rank(entries, entry.0),
        spec_insert(entries, entry)[rank(entries, entry.0)] == entry,
{
    let id = entry.0;
    let r = rank(entries, id);
    let after = spec_insert(entries, entry);
    lemma_rank(entries, id);
    assert(ascending(after)) by {
        assert forall|i: int, j: int| 0 <= i < j < after.len() implies after[i].0
            < after[j].0 by {
            if holds(entries, id) {
            } else {
                let i0 = if i < r {
                    i
                } else {
                    i - 1
                };
                let j0 = if j < r {
                    j
                } else {
                    j - 1
                };
                if i != r && j != r {
                    assert(after[i] == entries[i0]);
                    assert(after[j] == entries[j0]);
                } else if i == r {
                    assert(after[j] == entries[j0]);
                    assert(entries[r].0 >= id);
                    if j0 > r {
                        assert(entries[r].0 < entries[j0].0);
                    }
                } else {
                    assert(after[i] == entries[i0]);
                }
            }
        }
    }
    lemma_rank_at(after, r);
    assert forall|other: u16| holds(after, other) == (other == id || holds(entries, other)) by {
        lemma_holds(after, other);
        lemma_holds(entries, other);
        if holds(entries, other) && other != id {
            let i = choose|i: int| 0 <= i < entries.len() && (#[trigger] entries[i]).0 == other;
            if holds(entries, id) {
                assert(after[i] == entries[i]);
            } else if i < r {
                assert(after[i] == entries[i]);
            } else {
                assert(after[i + 1] == entries[i]);
            }
        }
        if holds(after, other) && other != id {
            let i = choose|i: int| 0 <= i < after.len() && (#[trigger] after[i]).0 == other;
            if holds(entries, id) {
                assert(after[i] == entries[i]);
            } else if i < r {
                assert(after[i] == entries[i]);
            } else {
                assert(after[i] == entries[i - 1]);
            }
        }
    }
    assert(keys(after) =~= keys(entries).insert(id));
}

/// Taking an entry out keeps the entries ascending and takes its identifier
/// from those held.
pub proof fn lemma_remove<V>(entries: Seq<(u16, V)>, id: u16)
    requires
        ascending(entries),
    ensures
        ascending(spec_remove(entries, id)),
        keys(spec_remove(entries, id)) == keys(entries).remove(id),
{
    let r = rank(entries, id);
    let after = spec_remove(entries, id);
    lemma_rank(entries, id);
    if holds(entries, id) {
        assert forall|i: int, j: int| 0 <= i < j < after.len() implies after[i].0
            < after[j].0 by {
            let i0 = if i < r {
                i
            } else {
                i + 1
            };
            let j0 = if j < r {
                j
            } else {
                j + 1
            };
            assert(after[i] == entries[i0]);
            assert(after[j] == entries[j0]);
        }
        assert forall|other: u16| holds(after, other) == (other != id && holds(
            entries,
            other,
        )) by {
            lemma_holds(after, other);
            lemma_holds(entries, other);
            if holds(entries, other) && other != id {
                let i = choose|i: int|
                    0 <= i < entries.len() && (#[trigger] entries[i]).0 == other;
                lemma_rank_at(entries, i);
                if i < r {
                    assert(after[i] == entries[i]);
                } else {
                    assert(after[i - 1] == entries[i]);
                }
            }
            if holds(after, other) {
                let i = choose|i: int| 0 <= i < after.len() && (#[trigger] after[i]).0 == other;
                if i < r {
                    assert(after[i] == entries[i]);
                } else {
                    assert(after[i] == entries[i + 1]);
                    lemma_rank_at(entries, i + 1);
                }
            }
        }
        assert(keys(after) =~= keys(entries).remove(id));
    } else {
        assert(keys(after) =~= keys(entries).remove(id));
    }
}

/// Every entry after an insertion is the new one, or was there before.
pub proof fn lemma_insert_members<V>(entries: Seq<(u16, V)>, entry: (u16, V), place: int)
    requires
        0 <= place < spec_insert(entries, entry).len(),
    ensures
        spec_insert(entries, entry)[place] == entry || exists|i: int|
            0 <= i < entries.len() && entries[i] == spec_insert(entries, entry)[place],
{
    let r = rank(entries, entry.0);
    lemma_rank(entries, entry.0);
    let after = spec_insert(entries, entry);
    if place != r {
        if holds(entries, entry.0) {
            assert(entries[place] == after[place]);
        } else if place < r {
            assert(entries[place] == after[place]);
        } else {
            assert(entries[place - 1] == after[place]);
        }
    }
}

/// Every entry after a removal was there before.
pub proof fn lemma_remove_members<V>(entries: Seq<(u16, V)>, id: u16, place: int)
    requires
        0 <= place < spec_remove(entries, id).len(),
    ensures
        exists|i: int| 0 <= i < entries.len() && entries[i] == spec_remove(entries, id)[place],
{
    let r = rank(entries, id);
    lemma_rank(entries, id);
    let after = spec_remove(entries, id);
    if holds(entries, id) {
        if place < r {
            assert(entries[place] == after[place]);
        } else {
            assert(entries[place + 1] == after[place]);
        }
    } else {
        assert(entries[place] == after[place]);
    }
}

/// What is in flight, by packet identifier.
pub struct InFlight<V> {
    entries: Vec<(PacketIdentifier, V)>,
}

/// An entry with its identifier as a plain number.
pub open spec fn plain<V>(entry: (PacketIdentifier, V)) -> (u16, V) {
    (entry.0@, entry.1)
}

impl<V> View for InFlight<V> {
    type V = Seq<(u16, V)>;

    /// The entries, first to last, each with the raw value of its identifier.
    closed spec fn view(&self) -> Seq<(u16, V)> {
        self.entries@.map_values(|entry: (PacketIdentifier, V)| plain(entry))
    }
}

impl<V> InFlight<V> {
    /// The identifiers of the entries ascend.
    pub open spec fn wf(&self) -> bool {
        ascending(self@)
    }

    /// A collection that holds nothing.
    pub fn new() -> (in_flight: Self)
        ensures
            in_flight@ == Seq::<(u16, V)>::empty(),
            in_flight.wf(),
    {
        let in_flight = InFlight { entries: Vec::new() };
        proof {
            assert(in_flight@ =~= Seq::<(u16, V)>::empty());
        }
        in_flight
    }

    /// The number of entries.
    pub fn len(&self) -> (len: usize)
        ensures
            len == self@.len(),
    {
        self.entries.len()
    }

    /// The entry at a place.
    pub fn get(&self, place: usize) -> (entry: &(PacketIdentifier, V))
        requires
            place < self@.len(),
        ensures
            plain(*entry) == self@[place as int],
    {
        &self.entries[place]
    }

    /// The place of an identifier: where its entry is, or where it would go.
    pub fn find(&self, packet_identifier: PacketIdentifier) -> (place: usize)
        requires
            self.wf(),
        ensures
            place == rank(self@, packet_identifier@),
            place <= self@.len(),
    {
        let id: u16 = packet_identifier.get();
        let mut place: usize = 0;
        proof {
            lemma_rank(self@, id);
        }
        while place < self.entries.len() && self.entries[place].0.get() < id
            invariant
                place <= self@.len(),
                self@.len() == self.entries@.len(),
                forall|i: int| 0 <= i < place ==> (#[trigger] self@[i]).0 < id,
            decreases self.entries@.len() - place,
        {
            place = place + 1;
        }
        proof {
            let r = rank(self@, id);
            if r < place {
                assert(self@[r].0 < id);
            } else if r > place {
                assert(self@[place as int].0 < id);
            }
        }
        place
    }

    /// Whether there is an entry for an identifier.
    pub fn contains(&self, packet_identifier: PacketIdentifier) -> (held: bool)
        requires
            self.wf(),
        ensures
            held == holds(self@, packet_identifier@),
    {
        let place = self.find(packet_identifier);
        place < self.entries.len() && self.entries[place].0.get() == packet_identifier.get()
    }

    /// Puts an entry in its place, and hands back the value that was there
    /// for the same identifier, where there was one.
    pub fn insert(&mut self, packet_identifier: PacketIdentifier, value: V) -> (previous: Option<V>)
        requires
            old(self).wf(),
        ensures
            final(self).wf(),
            final(self)@ == spec_insert(old(self)@, (packet_identifier@, value)),
            keys(final(self)@) == keys(old(self)@).insert(packet_identifier@),
            match previous {
                Some(previous) => holds(old(self)@, packet_identifier@) && previous == old(
                    self,
                )@[rank(old(self)@, packet_identifier@)].1,
                None => !holds(old(self)@, packet_identifier@),
            },
    {
        proof {
            lemma_insert(self@, (packet_identifier@, value));
        }
        let place = self.find(packet_identifier);
        if place < self.entries.len() && self.entries[place].0.get() == packet_identifier.get() {
            let (_, previous) = self.entries.remove(place);
            self.entries.insert(place, (packet_identifier, value));
            proof {
                assert(self@ =~= old(self)@.update(place as int, (packet_identifier@, value)));
            }
            Some(previous)
        } else {
            self.entries.insert(place, (packet_identifier, value));
            proof {
                assert(self@ =~= old(self)@.insert(place as int, (packet_identifier@, value)));
            }
            None
        }
    }

    /// Takes the entry for an identifier out, and hands back its value, where
    /// there is one.
    pub fn remove(&mut self, packet_identifier: PacketIdentifier) -> (removed: Option<V>)
        requires
            old(self).wf(),
        ensures
            final(self).wf(),
            final(self)@ == spec_remove(old(self)@, packet_identifier@),
            keys(final(self)@) == keys(old(self)@).remove(packet_identifier@),
            match removed {
                Some(removed) => holds(old(self)@, packet_identifier@) && removed == old(
                    self,
                )@[rank(old(self)@, packet_identifier@)].1,
                None => !holds(old(self)@, packet_identifier@),
            },
    {
        proof {
            lemma_remove(self@, packet_identifier@);
        }
        let place = self.find(packet_identifier);
        if place < self.entries.len() && self.entries[place].0.get() == packet_identifier.get() {
            let (_, removed) = self.entries.remove(place);
            proof {
                assert(self@ =~= old(self)@.remove(place as int));
            }
            Some(removed)
        } else {
            None
        }
    }

    /// Takes the first entry out, where there is one.
    pub fn pop_first(&mut self) -> (first: Option<(PacketIdentifier, V)>)
        requires
            old(self).wf(),
        ensures
            final(self).wf(),
            match first {
                Some(first) => {
                    &&& old(self)@.len() > 0
                    &&& plain(first) == old(self)@[0]
                    &&& final(self)@ == old(self)@.drop_first()
                },
                None => old(self)@.len() == 0 && final(self)@ == old(self)@,
            },
    {
        if self.entries.len() == 0 {
            None
        } else {
            let first = self.entries.remove(0);
            proof {
                assert(self@ =~= old(self)@.drop_first());
            }
            Some(first)
        }
    }
}

} // verus!
