//! The allocator of packet identifiers.
//!
//! One bit for each of the 65 536 values of a two-byte integer says whether
//! the client has reserved the identifier, and one more whether it is marked
//! for a message of the server, which picks the identifiers of its messages
//! itself. An identifier is taken where either bit is set. Identifiers are
//! handed out in turn: the search for one that is not taken starts behind
//! the one handed out last, and wraps around.

use crate::client::Error;
use crate::proto::PacketIdentifier;
use vstd::prelude::*;

verus! {

/// Whether bit `offset` of `word` is set.
pub open spec fn bit_is_set(word: usize, offset: usize) -> bool {
    word & (1usize << offset) != 0
}

proof fn lemma_set_bit(word: usize, offset: usize, other: usize)
    by (bit_vector)
    requires
        offset < usize::BITS,
        other < usize::BITS,
    ensures
        (word | (1usize << offset)) & (1usize << offset) != 0,
        other != offset ==> ((word | (1usize << offset)) & (1usize << other) != 0) == (word & (
        1usize << other) != 0),
{
}

proof fn lemma_clear_bit(word: usize, offset: usize, other: usize)
    by (bit_vector)
    requires
        offset < usize::BITS,
        other < usize::BITS,
    ensures
        (word & !(1usize << offset)) & (1usize << offset) == 0,
        other != offset ==> ((word & !(1usize << offset)) & (1usize << other) != 0) == (word & (
        1usize << other) != 0),
        word & (1usize << offset) == 0 ==> word & !(1usize << offset) == word,
{
}

proof fn lemma_no_bit(offset: usize)
    by (bit_vector)
    ensures
        0usize & (1usize << offset) == 0,
{
}

/// The identifier that comes `steps` places behind `start`, where the
/// largest identifier is followed by the smallest.
pub open spec fn nth_after(start: u16, steps: nat) -> u16 {
    ((start - 1 + steps) % 0xFFFF + 1) as u16
}

/// Every identifier comes between one and 65 535 places behind any other.
pub proof fn lemma_nth_after_reaches(start: u16, id: u16)
    requires
        start != 0,
        id != 0,
    ensures
        exists|steps: nat| 1 <= steps <= 0xFFFF && nth_after(start, steps) == id,
{
    let steps: nat = if id > start {
        (id - start) as nat
    } else {
        (id + 0xFFFF - start) as nat
    };
    assert(1 <= steps <= 0xFFFF && nth_after(start, steps) == id);
}

/// The first identifier that is free, `steps` or more places behind
/// `previous`, where there is one within a whole round.
pub open spec fn first_free(in_use: Set<u16>, previous: u16, steps: nat) -> Option<u16>
    decreases 0x1_0000 - steps,
{
    if steps > 0xFFFF {
        None
    } else if !in_use.contains(nth_after(previous, steps)) {
        Some(nth_after(previous, steps))
    } else {
        first_free(in_use, previous, steps + 1)
    }
}

/// The identifier that is handed out next: the first free one behind the
/// one handed out last. There is none where all 65 535 are in use.
pub open spec fn spec_reserve(in_use: Set<u16>, previous: u16) -> Option<u16> {
    first_free(in_use, previous, 1)
}

/// Where the identifiers from `from` to `steps` places behind `previous` are
/// in use, the search goes on at `steps`.
proof fn lemma_first_free_skips(in_use: Set<u16>, previous: u16, from: nat, steps: nat)
    requires
        1 <= from <= steps,
        forall|earlier: nat|
            from <= earlier < steps ==> in_use.contains(#[trigger] nth_after(previous, earlier)),
    ensures
        first_free(in_use, previous, from) == first_free(in_use, previous, steps),
    decreases steps - from,
{
    if from < steps {
        assert(in_use.contains(nth_after(previous, from)));
        if from <= 0xFFFF {
            lemma_first_free_skips(in_use, previous, from + 1, steps);
        } else {
            assert(first_free(in_use, previous, steps) is None);
        }
    }
}

/// The identifier that is handed out next is free.
pub proof fn lemma_reserved_is_free(in_use: Set<u16>, previous: u16)
    ensures
        spec_reserve(in_use, previous) matches Some(id) ==> !in_use.contains(id) && id != 0,
{
    lemma_first_free_is_free(in_use, previous, 1);
}

proof fn lemma_first_free_is_free(in_use: Set<u16>, previous: u16, steps: nat)
    ensures
        first_free(in_use, previous, steps) matches Some(id) ==> !in_use.contains(id) && id != 0,
    decreases 0x1_0000 - steps,
{
    if steps <= 0xFFFF && in_use.contains(nth_after(previous, steps)) {
        lemma_first_free_is_free(in_use, previous, steps + 1);
    }
}

/// The index of the word that holds the bit of `id`.
pub open spec fn block_of(id: u16) -> int {
    id as int / usize::BITS as int
}

/// The place of the bit of `id` in its word.
pub open spec fn offset_of(id: u16) -> usize {
    (id as int % usize::BITS as int) as usize
}

/// Each identifier has a bit of its own, in one of the words of the bitset.
proof fn lemma_layout(a: u16, b: u16)
    ensures
        0 <= block_of(a) < PacketIdentifiers::SIZE,
        offset_of(a) < usize::BITS,
        block_of(a) == block_of(b) && offset_of(a) == offset_of(b) ==> a == b,
{
    if usize::BITS == 32 {
        assert(PacketIdentifiers::SIZE as int == 0x1_0000int / (usize::BITS as int));
        assert(block_of(a) == a as int / 32 && offset_of(a) == a as int % 32);
        assert(block_of(b) == b as int / 32 && offset_of(b) == b as int % 32);
    } else {
        assert(usize::BITS == 64);
        assert(PacketIdentifiers::SIZE as int == 0x1_0000int / (usize::BITS as int));
        assert(block_of(a) == a as int / 64 && offset_of(a) == a as int % 64);
        assert(block_of(b) == b as int / 64 && offset_of(b) == b as int % 64);
    }
}

/// Whether the bit of `id` is set in the words of a bitset.
pub open spec fn marked(words: Seq<usize>, id: u16) -> bool {
    bit_is_set(words[block_of(id)], offset_of(id))
}

/// The words of a bitset once the bit of `id` is set.
pub open spec fn spec_mark(words: Seq<usize>, id: u16) -> Seq<usize> {
    words.update(block_of(id), words[block_of(id)] | (1usize << offset_of(id)))
}

/// The words of a bitset once the bit of `id` is cleared.
pub open spec fn spec_unmark(words: Seq<usize>, id: u16) -> Seq<usize> {
    words.update(block_of(id), words[block_of(id)] & !(1usize << offset_of(id)))
}

/// Setting the bit of an identifier marks it, and no other.
proof fn lemma_mark(words: Seq<usize>, taken: u16)
    requires
        words.len() == PacketIdentifiers::SIZE,
    ensures
        forall|id: u16| #[trigger]
            marked(
                words.update(
                    block_of(taken),
                    words[block_of(taken)] | (1usize << offset_of(taken)),
                ),
                id,
            ) == (id == taken || marked(words, id)),
{
    let word = words[block_of(taken)];
    let after = words.update(block_of(taken), word | (1usize << offset_of(taken)));
    assert forall|id: u16| #[trigger] marked(after, id) == (id == taken || marked(words, id)) by {
        lemma_layout(id, taken);
        lemma_layout(taken, id);
        if block_of(id) == block_of(taken) {
            lemma_set_bit(word, offset_of(taken), offset_of(id));
        }
    }
}

/// Clearing the bit of an identifier unmarks it, and no other; it changes
/// no word where the bit was clear.
proof fn lemma_unmark(words: Seq<usize>, given: u16)
    requires
        words.len() == PacketIdentifiers::SIZE,
    ensures
        forall|id: u16| #[trigger]
            marked(
                words.update(
                    block_of(given),
                    words[block_of(given)] & !(1usize << offset_of(given)),
                ),
                id,
            ) == (id != given && marked(words, id)),
        !marked(words, given) ==> words.update(
            block_of(given),
            words[block_of(given)] & !(1usize << offset_of(given)),
        ) == words,
{
    let word = words[block_of(given)];
    let after = words.update(block_of(given), word & !(1usize << offset_of(given)));
    lemma_layout(given, given);
    lemma_clear_bit(word, offset_of(given), offset_of(given));
    assert forall|id: u16| #[trigger] marked(after, id) == (id != given && marked(words, id)) by {
        lemma_layout(id, given);
        lemma_layout(given, id);
        if block_of(id) == block_of(given) {
            lemma_clear_bit(word, offset_of(given), offset_of(id));
        }
    }
    if !marked(words, given) {
        assert(after =~= words);
    }
}

/// The set of packet identifiers that are in use.
pub struct PacketIdentifiers {
    in_use: Vec<usize>,
    marked: Vec<usize>,
    previous: PacketIdentifier,
}

impl View for PacketIdentifiers {
    type V = Set<u16>;

    /// The identifiers that the client has reserved.
    closed spec fn view(&self) -> Set<u16> {
        Set::new(|id: u16| id != 0 && self.marks(id))
    }
}

impl PacketIdentifiers {
    /// Size of a bitset for every packet identifier
    ///
    /// Packet identifiers are u16's, so the number of usize's required
    /// = number of u16's / number of bits in a usize
    pub const SIZE: usize = 0x1_0000 / (usize::BITS as usize);

    /// Whether the bit of `id` is set.
    closed spec fn marks(&self, id: u16) -> bool {
        marked(self.in_use@, id)
    }

    /// There are two bits for each identifier.
    pub closed spec fn wf(&self) -> bool {
        self.in_use@.len() == Self::SIZE && self.marked@.len() == Self::SIZE
    }

    /// The identifiers that are marked for messages of the server.
    pub closed spec fn marked(&self) -> Set<u16> {
        Set::new(|id: u16| id != 0 && marked(self.marked@, id))
    }

    /// The identifiers that are taken: those that the client has reserved
    /// and those that are marked for messages of the server. None of them is
    /// handed out.
    pub open spec fn taken(&self) -> Set<u16> {
        self@.union(self.marked())
    }

    /// The words of the bitset.
    pub closed spec fn words(&self) -> Seq<usize> {
        self.in_use@
    }

    /// The identifier that was handed out last, or the largest one where none
    /// has been yet.
    pub closed spec fn previous(&self) -> u16 {
        self.previous@
    }

    /// An identifier is in use exactly where its bit is set in the words.
    pub proof fn lemma_in_use_is_marked(&self, id: u16)
        ensures
            self@.contains(id) == (id != 0 && marked(self.words(), id)),
    {
    }

    /// Zero is never in use.
    pub proof fn lemma_zero_is_free(&self)
        ensures
            !self@.contains(0),
            !self.marked().contains(0),
    {
    }

    /// An allocator in which no identifier is in use.
    pub fn new() -> (identifiers: Self)
        ensures
            identifiers.wf(),
            identifiers@ == Set::<u16>::empty(),
            identifiers.marked() == Set::<u16>::empty(),
            identifiers.previous() == u16::MAX,
            identifiers.words() == Seq::new(Self::SIZE as nat, |i: int| 0usize),
    {
        let mut in_use: Vec<usize> = Vec::new();
        let mut marks: Vec<usize> = Vec::new();
        let mut i: usize = 0;
        while i < Self::SIZE
            invariant
                i <= Self::SIZE,
                in_use@ == Seq::new(i as nat, |j: int| 0usize),
                marks@ == Seq::new(i as nat, |j: int| 0usize),
            decreases Self::SIZE - i,
        {
            in_use.push(0);
            marks.push(0);
            i = i + 1;
            proof {
                assert(in_use@ =~= Seq::new(i as nat, |j: int| 0usize));
                assert(marks@ =~= Seq::new(i as nat, |j: int| 0usize));
            }
        }
        let identifiers = PacketIdentifiers {
            in_use,
            marked: marks,
            previous: PacketIdentifier::max_value(),
        };
        proof {
            assert forall|id: u16| !identifiers.marks(id) && !marked(identifiers.marked@, id) by {
                lemma_layout(id, id);
                lemma_no_bit(offset_of(id));
            }
            assert(identifiers@ =~= Set::<u16>::empty());
            assert(identifiers.marked() =~= Set::<u16>::empty());
        }
        identifiers
    }

    /// The words of the bitset.
    pub fn in_use(&self) -> (words: &[usize])
        requires
            self.wf(),
        ensures
            words@ == self.words(),
            words@.len() == Self::SIZE,
    {
        self.in_use.as_slice()
    }

    /// The word that holds the bit of an identifier, and the mask that
    /// selects the bit in it.
    pub fn entry(packet_identifier: PacketIdentifier) -> (entry: (usize, usize))
        ensures
            packet_identifier@ != 0,
            entry.0 == block_of(packet_identifier@),
            entry.0 < Self::SIZE,
            entry.1 == 1usize << offset_of(packet_identifier@),
    {
        proof {
            lemma_layout(packet_identifier@, packet_identifier@);
        }
        let packet_identifier: usize = packet_identifier.get() as usize;
        let bits: usize = usize::BITS as usize;
        let (block, offset) = (packet_identifier / bits, packet_identifier % bits);
        (block, 1usize << offset)
    }

    /// Reserves the first identifier that is not taken, searching from the
    /// one behind the identifier handed out last. Fails where all 65 535 are
    /// taken.
    pub fn reserve(&mut self) -> (reserved: Result<PacketIdentifier, Error>)
        requires
            old(self).wf(),
        ensures
            final(self).wf(),
            match reserved {
                Ok(packet_identifier) => {
                    &&& !old(self).taken().contains(packet_identifier@)
                    &&& final(self)@ == old(self)@.insert(packet_identifier@)
                    &&& final(self).words() == spec_mark(old(self).words(), packet_identifier@)
                    &&& final(self).previous() == packet_identifier@
                    &&& spec_reserve(old(self).taken(), old(self).previous()) == Some(
                        packet_identifier@,
                    )
                },
                Err(err) => {
                    &&& err is PacketIdentifiersExhausted
                    &&& spec_reserve(old(self).taken(), old(self).previous()) is None
                    &&& forall|id: u16| id != 0 ==> old(self).taken().contains(id)
                    &&& final(self)@ == old(self)@
                    &&& final(self).previous() == old(self).previous()
                    &&& final(self).words() == old(self).words()
                },
            },
            final(self).marked() == old(self).marked(),
    {
        let start = self.previous;
        let start_raw: u16 = start.get();
        let mut current = start;
        let mut tried: u32 = 0;
        while tried < 0xFFFF
            invariant
                tried <= 0xFFFF,
                start_raw != 0,
                start_raw == old(self).previous(),
                current@ == nth_after(start_raw, tried as nat),
                self.wf(),
                *self == *old(self),
                forall|earlier: nat|
                    1 <= earlier <= tried ==> old(self).taken().contains(
                        #[trigger] nth_after(start_raw, earlier),
                    ),
            decreases 0xFFFF - tried,
        {
            current = current.add(1);
            tried = tried + 1;
            assert(current@ == nth_after(start_raw, tried as nat));
            let (block, mask) = Self::entry(current);
            let word: usize = self.in_use[block];
            let mark: usize = self.marked[block];
            if word & mask == 0 && mark & mask == 0 {
                let ghost before = *self;
                self.in_use.set(block, word | mask);
                self.previous = current;
                proof {
                    let taken = current@;
                    lemma_mark(before.in_use@, taken);
                    assert(taken != 0);
                    assert forall|id: u16| self@.contains(id) == before@.insert(taken).contains(
                        id,
                    ) by {
                        assert(marked(self.in_use@, id) == (id == taken || marked(
                            before.in_use@,
                            id,
                        )));
                    }
                    assert(self@ =~= before@.insert(taken));
                    assert(!before.marks(taken));
                    assert(!marked(before.marked@, taken));
                    assert(!before.taken().contains(taken));
                    lemma_first_free_skips(old(self).taken(), start_raw, 1, tried as nat);
                }
                return Ok(current);
            }
            proof {
                assert(self.marks(current@) || marked(self.marked@, current@));
                assert(self.taken().contains(current@));
            }
        }
        proof {
            assert forall|id: u16| id != 0 implies old(self).taken().contains(id) by {
                lemma_nth_after_reaches(start_raw, id);
            }
            lemma_first_free_skips(old(self).taken(), start_raw, 1, 0x1_0000);
        }
        Err(Error::PacketIdentifiersExhausted)
    }

    /// Marks an identifier for a message of the server. Nothing changes
    /// where it was marked.
    pub fn mark(&mut self, packet_identifier: PacketIdentifier)
        requires
            old(self).wf(),
        ensures
            final(self).wf(),
            final(self).marked() == old(self).marked().insert(packet_identifier@),
            final(self)@ == old(self)@,
            final(self).words() == old(self).words(),
            final(self).previous() == old(self).previous(),
    {
        let (block, mask) = Self::entry(packet_identifier);
        let word: usize = self.marked[block];
        let ghost before = *self;
        self.marked.set(block, word | mask);
        proof {
            let given = packet_identifier@;
            lemma_mark(before.marked@, given);
            assert forall|id: u16|
                self.marked().contains(id) == before.marked().insert(given).contains(id) by {
                assert(marked(self.marked@, id) == (id == given || marked(before.marked@, id)));
            }
            assert(self.marked() =~= before.marked().insert(given));
        }
    }

    /// Takes the mark of a message of the server off an identifier. Nothing
    /// changes where it was not marked.
    pub fn unmark(&mut self, packet_identifier: PacketIdentifier)
        requires
            old(self).wf(),
        ensures
            final(self).wf(),
            final(self).marked() == old(self).marked().remove(packet_identifier@),
            final(self)@ == old(self)@,
            final(self).words() == old(self).words(),
            final(self).previous() == old(self).previous(),
    {
        let (block, mask) = Self::entry(packet_identifier);
        let word: usize = self.marked[block];
        let ghost before = *self;
        self.marked.set(block, word & !mask);
        proof {
            let given = packet_identifier@;
            lemma_unmark(before.marked@, given);
            assert forall|id: u16|
                self.marked().contains(id) == before.marked().remove(given).contains(id) by {
                assert(marked(self.marked@, id) == (id != given && marked(before.marked@, id)));
            }
            assert(self.marked() =~= before.marked().remove(given));
        }
    }

    /// Whether an identifier is marked for a message of the server.
    pub fn is_marked(&self, packet_identifier: PacketIdentifier) -> (marked: bool)
        requires
            self.wf(),
        ensures
            marked == self.marked().contains(packet_identifier@),
    {
        let (block, mask) = Self::entry(packet_identifier);
        self.marked[block] & mask != 0
    }

    /// Gives back an identifier that the client has reserved. Nothing changes
    /// where it was not reserved.
    pub fn discard(&mut self, packet_identifier: PacketIdentifier)
        requires
            old(self).wf(),
        ensures
            final(self).wf(),
            final(self)@ == old(self)@.remove(packet_identifier@),
            final(self).marked() == old(self).marked(),
            final(self).words() == spec_unmark(old(self).words(), packet_identifier@),
            final(self).previous() == old(self).previous(),
            !old(self)@.contains(packet_identifier@) ==> final(self).words() == old(self).words(),
    {
        let (block, mask) = Self::entry(packet_identifier);
        let word: usize = self.in_use[block];
        let ghost before = *self;
        self.in_use.set(block, word & !mask);
        proof {
            let given = packet_identifier@;
            lemma_unmark(before.in_use@, given);
            assert forall|id: u16| self@.contains(id) == before@.remove(given).contains(id) by {
                assert(marked(self.in_use@, id) == (id != given && marked(before.in_use@, id)));
            }
            assert(self@ =~= before@.remove(given));
        }
    }

    /// Whether the client has reserved an identifier.
    pub fn is_reserved(&self, packet_identifier: PacketIdentifier) -> (reserved: bool)
        requires
            self.wf(),
        ensures
            reserved == self@.contains(packet_identifier@),
    {
        let (block, mask) = Self::entry(packet_identifier);
        self.in_use[block] & mask != 0
    }
}

impl Default for PacketIdentifiers {
    fn default() -> (identifiers: Self)
        ensures
            identifiers.wf(),
            identifiers@ == Set::<u16>::empty(),
            identifiers.marked() == Set::<u16>::empty(),
            identifiers.previous() == u16::MAX,
    {
        PacketIdentifiers::new()
    }
}

} // verus!
