//! Reading does not depend on how the bytes arrive: the laws that tie a
//! packet read in pieces to the packet read at once.

use crate::proto::codec::{
    spec_decode_framed, spec_decode_length, spec_decode_stream, Framing, Progress,
};
use crate::proto::remaining_length::{
    place_value, spec_decode_remaining_length, RemainingLengthParse,
};
use vstd::prelude::*;

verus! {

/// What reading a length comes to once more bytes have arrived behind the
/// bytes that were there.
pub open spec fn length_with_more(parse: RemainingLengthParse, more: Seq<u8>) -> RemainingLengthParse {
    match parse {
        RemainingLengthParse::Incomplete { result, num_bytes_read } => spec_decode_remaining_length(
            result,
            num_bytes_read,
            more,
        ),
        RemainingLengthParse::TooHigh { rest } => RemainingLengthParse::TooHigh {
            rest: rest + more,
        },
        RemainingLengthParse::Done { value, rest } => RemainingLengthParse::Done {
            value,
            rest: rest + more,
        },
    }
}

/// A length is read from bytes that arrive in two pieces as it is from the
/// two together: where the first piece ran out, reading goes on in the
/// second, and else the second piece follows what the first left over.
pub proof fn lemma_length_in_pieces(
    result: nat,
    num_bytes_read: nat,
    first: Seq<u8>,
    second: Seq<u8>,
)
    ensures
        spec_decode_remaining_length(result, num_bytes_read, first + second) == length_with_more(
            spec_decode_remaining_length(result, num_bytes_read, first),
            second,
        ),
    decreases first.len(),
{
    if first.len() == 0 {
        assert(first + second =~= second);
    } else {
        let both = first + second;
        assert(both[0] == first[0]);
        assert(both.skip(1) =~= first.skip(1) + second);
        let next = (result + (first[0] % 0x80) * place_value(num_bytes_read)) as nat;
        if first[0] >= 0x80 && num_bytes_read + 1 < 4 {
            lemma_length_in_pieces(next, (num_bytes_read + 1) as nat, first.skip(1), second);
        }
    }
}

/// What reading a packet comes to once more bytes have arrived behind the
/// bytes that were there.
pub open spec fn framing_with_more(framing: Framing, more: Seq<u8>) -> Framing {
    match framing {
        Framing::NeedMore { state, rest } => spec_decode_stream(state, rest + more),
        Framing::Failed { failure, rest } => Framing::Failed { failure, rest: rest + more },
        Framing::Packet { packet, rest } => Framing::Packet { packet, rest: rest + more },
    }
}

/// What follows a fixed header is read from bytes that arrive in two pieces
/// as it is from the two together.
proof fn lemma_framed_in_pieces(
    first_byte: u8,
    remaining_length: nat,
    first: Seq<u8>,
    second: Seq<u8>,
)
    ensures
        spec_decode_framed(first_byte, remaining_length, first + second) == framing_with_more(
            spec_decode_framed(first_byte, remaining_length, first),
            second,
        ),
{
    let both = first + second;
    if first.len() >= remaining_length {
        assert(both.take(remaining_length as int) =~= first.take(remaining_length as int));
        assert(both.skip(remaining_length as int) =~= first.skip(remaining_length as int)
            + second);
    }
}

/// The length of a fixed header, and what follows it, are read from bytes
/// that arrive in two pieces as they are from the two together.
proof fn lemma_header_in_pieces(
    first_byte: u8,
    result: nat,
    num_bytes_read: nat,
    first: Seq<u8>,
    second: Seq<u8>,
)
    ensures
        spec_decode_length(first_byte, result, num_bytes_read, first + second)
            == framing_with_more(
            spec_decode_length(first_byte, result, num_bytes_read, first),
            second,
        ),
{
    lemma_length_in_pieces(result, num_bytes_read, first, second);
    match spec_decode_remaining_length(result, num_bytes_read, first) {
        RemainingLengthParse::Incomplete { result, num_bytes_read } => {
            assert(Seq::<u8>::empty() + second =~= second);
        },
        RemainingLengthParse::TooHigh { .. } => {},
        RemainingLengthParse::Done { value, rest } => {
            lemma_framed_in_pieces(first_byte, value, rest, second);
        },
    }
}

/// A packet is read from bytes that arrive in two pieces as it is from the
/// two together. Where the first piece ran out, the decoder goes on from
/// where it came to, over the bytes it left in place and the second piece,
/// and comes to what it would have come to over both pieces at once. Where
/// the first piece held a packet, or bytes that are none, the second piece
/// changes nothing but what is left over.
pub proof fn lemma_decode_in_pieces(state: Progress, first: Seq<u8>, second: Seq<u8>)
    ensures
        spec_decode_stream(state, first + second) == framing_with_more(
            spec_decode_stream(state, first),
            second,
        ),
{
    match state {
        Progress::Empty => {
            if first.len() == 0 {
                assert(first + second =~= second);
            } else {
                let both = first + second;
                assert(both[0] == first[0]);
                assert(both.skip(1) =~= first.skip(1) + second);
                lemma_header_in_pieces(first[0], 0, 0, first.skip(1), second);
            }
        },
        Progress::HaveFirstByte { first_byte, result, num_bytes_read } => {
            lemma_header_in_pieces(first_byte, result, num_bytes_read, first, second);
        },
        Progress::HaveFixedHeader { first_byte, remaining_length } => {
            lemma_framed_in_pieces(first_byte, remaining_length, first, second);
        },
    }
}

} // verus!
