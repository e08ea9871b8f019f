//! MQTT-format "remaining length" numbers.
//!
//! These numbers are encoded with a variable-length scheme that uses the most
//! significant bit of each byte as a continuation bit, least significant
//! group first, in at most four bytes.
//!
//! Ref: 2.2.3 Remaining Length

use crate::buffer::{buf_advance, buf_as_slice, buf_bytes, buf_extend_from_slice};
use crate::proto::{DecodeError, DecodeFailure, EncodeError, EncodeFailure};
use bytes::BytesMut;
use vstd::prelude::*;

verus! {

/// The largest number that four bytes can hold in this scheme.
pub const MAX_REMAINING_LENGTH: usize = 0x0FFF_FFFF;

/// What the `n`-th byte of an encoded number counts: 128 to the power `n`.
pub open spec fn place_value(n: nat) -> nat {
    if n == 0 {
        1
    } else if n == 1 {
        0x80
    } else if n == 2 {
        0x4000
    } else if n == 3 {
        0x20_0000
    } else {
        0x1000_0000
    }
}

/// The shortest encoding of `n`.
pub open spec fn spec_encode_remaining_length(n: nat) -> Seq<u8>
    decreases n,
{
    if n < 0x80 {
        seq![n as u8]
    } else {
        seq![(n % 0x80 + 0x80) as u8] + spec_encode_remaining_length(n / 0x80)
    }
}

/// What reading a number off the front of some bytes comes to.
pub enum RemainingLengthParse {
    /// The bytes ran out: `result` and `num_bytes_read` are what has been
    /// gathered so far.
    Incomplete { result: nat, num_bytes_read: nat },
    /// A fourth byte asked for a fifth. `rest` follows that fourth byte.
    TooHigh { rest: Seq<u8> },
    /// The number, and the bytes that follow its encoding.
    Done { value: nat, rest: Seq<u8> },
}

/// Reads a number off the front of `bytes`, after `num_bytes_read` bytes
/// of it that came earlier gave `result`.
pub open spec fn spec_decode_remaining_length(
    result: nat,
    num_bytes_read: nat,
    bytes: Seq<u8>,
) -> RemainingLengthParse
    decreases bytes.len(),
{
    if bytes.len() == 0 {
        RemainingLengthParse::Incomplete { result, num_bytes_read }
    } else {
        let byte = bytes[0];
        let result = (result + (byte % 0x80) * place_value(num_bytes_read)) as nat;
        if byte < 0x80 {
            RemainingLengthParse::Done { value: result, rest: bytes.skip(1) }
        } else if num_bytes_read + 1 >= 4 {
            RemainingLengthParse::TooHigh { rest: bytes.skip(1) }
        } else {
            spec_decode_remaining_length(result, (num_bytes_read + 1) as nat, bytes.skip(1))
        }
    }
}

/// A codec that encodes and decodes MQTT-format "remaining length" numbers.
#[derive(Debug, Default)]
pub struct RemainingLengthCodec {
    decoder_state: RemainingLengthDecoderState,
}

/// How far the decoder has come in a number whose bytes have not all arrived.
#[derive(Debug)]
pub struct RemainingLengthDecoderState {
    result: usize,
    num_bytes_read: usize,
}

impl RemainingLengthDecoderState {
    /// Fewer than four bytes have been read, and what they gave is below the
    /// place value of the next byte.
    #[verifier::type_invariant]
    spec fn well_formed(self) -> bool {
        self.num_bytes_read < 4 && self.result < place_value(self.num_bytes_read as nat)
    }

    /// The number gathered from the bytes read so far.
    pub closed spec fn result(self) -> nat {
        self.result as nat
    }

    /// The number of bytes read so far.
    pub closed spec fn num_bytes_read(self) -> nat {
        self.num_bytes_read as nat
    }

    /// Whether no byte of a number is pending.
    pub open spec fn is_initial(self) -> bool {
        self.result() == 0 && self.num_bytes_read() == 0
    }
}

impl Default for RemainingLengthDecoderState {
    fn default() -> (state: Self)
        ensures
            state.is_initial(),
    {
        RemainingLengthDecoderState { result: 0, num_bytes_read: 0 }
    }
}

/// The place value as a machine integer.
fn place(num_bytes_read: usize) -> (p: usize)
    requires
        num_bytes_read < 4,
    ensures
        p == place_value(num_bytes_read as nat),
{
    if num_bytes_read == 0 {
        1
    } else if num_bytes_read == 1 {
        0x80
    } else if num_bytes_read == 2 {
        0x4000
    } else {
        0x20_0000
    }
}

impl RemainingLengthCodec {
    /// The state of the decoder.
    pub closed spec fn state(self) -> RemainingLengthDecoderState {
        self.decoder_state
    }

    /// A codec that has read no byte.
    pub fn new() -> (codec: Self)
        ensures
            codec.state().is_initial(),
    {
        RemainingLengthCodec { decoder_state: RemainingLengthDecoderState::default() }
    }

    /// Reads a number off the front of `src`, taking up where an earlier call
    /// that ran out of bytes left off. The bytes read leave `src`. Once a
    /// number is complete, or too high, the decoder starts afresh.
    pub fn decode(&mut self, src: &mut BytesMut) -> (decoded: Result<Option<usize>, DecodeError>)
        ensures
            match spec_decode_remaining_length(
                old(self).state().result(),
                old(self).state().num_bytes_read(),
                buf_bytes(*old(src)),
            ) {
                RemainingLengthParse::Incomplete { result, num_bytes_read } => {
                    &&& decoded matches Ok(None)
                    &&& final(self).state().result() == result
                    &&& final(self).state().num_bytes_read() == num_bytes_read
                    &&& buf_bytes(*final(src)) == Seq::<u8>::empty()
                },
                RemainingLengthParse::TooHigh { rest } => {
                    &&& decoded matches Err(err)
                    &&& err@ == DecodeFailure::RemainingLengthTooHigh
                    &&& final(self).state().is_initial()
                    &&& buf_bytes(*final(src)) == rest
                },
                RemainingLengthParse::Done { value, rest } => {
                    &&& decoded == Ok::<Option<usize>, DecodeError>(Some(value as usize))
                    &&& value <= MAX_REMAINING_LENGTH
                    &&& final(self).state().is_initial()
                    &&& buf_bytes(*final(src)) == rest
                },
            },
    {
        proof {
            use_type_invariant(&self.decoder_state);
        }
        let ghost all = buf_bytes(*src);
        let ghost result0 = self.decoder_state.result as nat;
        let ghost read0 = self.decoder_state.num_bytes_read as nat;
        let mut result: usize = self.decoder_state.result;
        let mut num_bytes_read: usize = self.decoder_state.num_bytes_read;
        let bytes = buf_as_slice(src);
        let len: usize = bytes.len();
        let mut i: usize = 0;
        let mut outcome: Option<Result<usize, DecodeError>> = None;
        proof {
            assert(all.skip(0) =~= all);
        }
        while i < len && outcome.is_none()
            invariant
                bytes@ == all,
                len == all.len(),
                i <= len,
                num_bytes_read < 4,
                result < place_value(num_bytes_read as nat),
                outcome is None ==> spec_decode_remaining_length(result0, read0, all)
                    == spec_decode_remaining_length(
                    result as nat,
                    num_bytes_read as nat,
                    all.skip(i as int),
                ),
                outcome matches Some(Ok(value)) ==> {
                    &&& i > 0
                    &&& value <= MAX_REMAINING_LENGTH
                    &&& spec_decode_remaining_length(result0, read0, all)
                        == (RemainingLengthParse::Done {
                        value: value as nat,
                        rest: all.skip(i as int),
                    })
                },
                outcome matches Some(Err(err)) ==> {
                    &&& i > 0
                    &&& err@ == DecodeFailure::RemainingLengthTooHigh
                    &&& spec_decode_remaining_length(result0, read0, all)
                        == (RemainingLengthParse::TooHigh { rest: all.skip(i as int) })
                },
            decreases len - i,
        {
            let encoded_byte: u8 = bytes[i];
            proof {
                assert(all.skip(i as int)[0] == encoded_byte);
                assert(all.skip(i as int).skip(1) =~= all.skip(i + 1));
            }
            let group: usize = (encoded_byte % 0x80) as usize;
            let next: usize = result + group * place(num_bytes_read);
            i = i + 1;
            if encoded_byte < 0x80 {
                outcome = Some(Ok(next));
            } else if num_bytes_read + 1 == 4 {
                outcome = Some(Err(DecodeError::RemainingLengthTooHigh));
            } else {
                result = next;
                num_bytes_read = num_bytes_read + 1;
            }
        }
        buf_advance(src, i);
        match outcome {
            None => {
                proof {
                    assert(all.skip(len as int) =~= Seq::<u8>::empty());
                }
                self.decoder_state = RemainingLengthDecoderState { result, num_bytes_read };
                Ok(None)
            },
            Some(Ok(value)) => {
                self.decoder_state = RemainingLengthDecoderState::default();
                Ok(Some(value))
            },
            Some(Err(err)) => {
                self.decoder_state = RemainingLengthDecoderState::default();
                Err(err)
            },
        }
    }

    /// Appends the shortest encoding of `item` to `dst`, or leaves `dst` as it
    /// is where `item` does not fit in four bytes.
    pub fn encode(&mut self, item: usize, dst: &mut BytesMut) -> (encoded: Result<(), EncodeError>)
        requires
            buf_bytes(*old(dst)).len() + 4 <= isize::MAX,
        ensures
            final(self).state() == old(self).state(),
            item <= MAX_REMAINING_LENGTH ==> encoded is Ok && buf_bytes(*final(dst)) == buf_bytes(
                *old(dst),
            ) + spec_encode_remaining_length(item as nat),
            item > MAX_REMAINING_LENGTH ==> {
                &&& encoded matches Err(err)
                &&& err@ == EncodeFailure::RemainingLengthTooHigh(item as nat)
                &&& buf_bytes(*final(dst)) == buf_bytes(*old(dst))
            },
    {
        if item > MAX_REMAINING_LENGTH {
            return Err(EncodeError::RemainingLengthTooHigh(item));
        }
        let mut encoded: Vec<u8> = Vec::new();
        append_remaining_length(item, &mut encoded);
        buf_extend_from_slice(dst, encoded.as_slice());
        Ok(())
    }
}

/// Appends the shortest encoding of `item` to `dst`.
pub(crate) fn append_remaining_length(item: usize, dst: &mut Vec<u8>)
    requires
        item <= MAX_REMAINING_LENGTH,
    ensures
        final(dst)@ == old(dst)@ + spec_encode_remaining_length(item as nat),
        spec_encode_remaining_length(item as nat).len() <= 4,
{
    let mut item: usize = item;
    let ghost given = item as nat;
    let ghost start = dst@;
    let mut written: usize = 0;
    loop
        invariant_except_break
            written < 4,
            item < place_value((4 - written) as nat),
            start + spec_encode_remaining_length(given) == dst@
                + spec_encode_remaining_length(item as nat),
            spec_encode_remaining_length(given).len() == written
                + spec_encode_remaining_length(item as nat).len(),
        ensures
            dst@ == start + spec_encode_remaining_length(given),
            spec_encode_remaining_length(given).len() <= 4,
        decreases item,
    {
        let group: u8 = (item % 0x80) as u8;
        let ghost before = dst@;
        let ghost current = item as nat;
        item = item / 0x80;
        if item > 0 {
            dst.push(group + 0x80);
            written = written + 1;
            proof {
                assert(dst@ + spec_encode_remaining_length(item as nat) =~= before
                    + spec_encode_remaining_length(current));
            }
        } else {
            dst.push(group);
            proof {
                assert(dst@ =~= before + spec_encode_remaining_length(current));
            }
            break ;
        }
    }
}

/// A number that fits in four bytes is read back from its encoding, whatever
/// follows it.
pub proof fn lemma_remaining_length_round_trip(n: nat, rest: Seq<u8>)
    requires
        n <= MAX_REMAINING_LENGTH,
    ensures
        spec_decode_remaining_length(0, 0, spec_encode_remaining_length(n) + rest)
            == (RemainingLengthParse::Done { value: n, rest }),
{
    lemma_round_trip_from(n, 0, 0, rest);
}

/// The round trip, taken up after `read` bytes that gave `result`.
proof fn lemma_round_trip_from(n: nat, result: nat, read: nat, rest: Seq<u8>)
    requires
        read < 4,
        n < place_value((4 - read) as nat),
    ensures
        spec_decode_remaining_length(result, read, spec_encode_remaining_length(n) + rest)
            == (RemainingLengthParse::Done { value: result + n * place_value(read), rest }),
    decreases n,
{
    let encoded = spec_encode_remaining_length(n);
    let bytes = encoded + rest;
    if n < 0x80 {
        assert(bytes[0] == n as u8);
        assert(bytes.skip(1) =~= rest);
    } else {
        let tail = spec_encode_remaining_length(n / 0x80);
        assert(bytes[0] == (n % 0x80 + 0x80) as u8);
        assert(bytes.skip(1) =~= tail + rest);
        lemma_round_trip_from(
            n / 0x80,
            result + (n % 0x80) * place_value(read),
            read + 1,
            rest,
        );
        assert((n % 0x80) * place_value(read) + (n / 0x80) * place_value(read + 1) == n
            * place_value(read)) by (nonlinear_arith)
            requires
                place_value(read + 1) == 0x80 * place_value(read),
        ;
    }
}

} // verus!
