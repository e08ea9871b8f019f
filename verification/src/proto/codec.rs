//! The packet codec: packets off a stream of bytes that arrives in pieces,
//! and packets onto a buffer.

use crate::buffer::{
    buf_advance, buf_as_slice, buf_bytes, buf_extend_from_slice, buf_len, buf_split_to,
};
use crate::proto::decode::decode_body;
use crate::proto::encode::encode_packet;
use crate::proto::packet::{spec_decode_body, spec_encode, Packet, PacketView};
use crate::proto::remaining_length::{spec_decode_remaining_length, RemainingLengthParse};
use crate::proto::{DecodeError, DecodeFailure, EncodeError, RemainingLengthCodec};
use bytes::BytesMut;
use vstd::prelude::*;

verus! {

/// The most bytes that a packet takes: its first byte, four bytes of length,
/// and as many bytes as those four can say.
pub const MAX_PACKET_LENGTH: usize = 0x1000_0004;

/// A codec that encodes and decodes MQTT packets.
#[derive(Debug, Default)]
pub struct PacketCodec {
    decoder_state: PacketDecoderState,
}

/// How far the decoder has come in a packet whose bytes have not all arrived.
#[derive(Debug)]
#[allow(inconsistent_fields)]
pub enum PacketDecoderState {
    Empty,
    HaveFirstByte { first_byte: u8, remaining_length: RemainingLengthCodec },
    HaveFixedHeader { first_byte: u8, remaining_length: usize },
}

impl Default for PacketDecoderState {
    fn default() -> (state: Self)
        ensures
            state is Empty,
    {
        PacketDecoderState::Empty
    }
}

/// The mathematical value of a [`PacketDecoderState`].
pub enum Progress {
    /// No byte of a packet is pending.
    Empty,
    /// The first byte has arrived, and `num_bytes_read` bytes of the length,
    /// which gave `result`.
    HaveFirstByte { first_byte: u8, result: nat, num_bytes_read: nat },
    /// The fixed header has arrived.
    HaveFixedHeader { first_byte: u8, remaining_length: nat },
}

impl View for PacketDecoderState {
    type V = Progress;

    open spec fn view(&self) -> Progress {
        match self {
            PacketDecoderState::Empty => Progress::Empty,
            PacketDecoderState::HaveFirstByte { first_byte, remaining_length } => {
                Progress::HaveFirstByte {
                    first_byte: *first_byte,
                    result: remaining_length.state().result(),
                    num_bytes_read: remaining_length.state().num_bytes_read(),
                }
            },
            PacketDecoderState::HaveFixedHeader { first_byte, remaining_length } => {
                Progress::HaveFixedHeader {
                    first_byte: *first_byte,
                    remaining_length: *remaining_length as nat,
                }
            },
        }
    }
}

/// What reading a packet off the front of a stream comes to.
pub enum Framing {
    /// The bytes ran out. `state` is how far the decoder came, and `rest` the
    /// bytes it left in place.
    NeedMore { state: Progress, rest: Seq<u8> },
    /// The bytes are not a packet. `rest` follows the bytes that were read.
    Failed { failure: DecodeFailure, rest: Seq<u8> },
    /// The packet, and the bytes that follow it.
    Packet { packet: PacketView, rest: Seq<u8> },
}

/// Reads what follows a fixed header that says `remaining_length` bytes
/// follow.
pub open spec fn spec_decode_framed(first_byte: u8, remaining_length: nat, bytes: Seq<u8>) -> Framing {
    if bytes.len() < remaining_length {
        Framing::NeedMore {
            state: Progress::HaveFixedHeader { first_byte, remaining_length },
            rest: bytes,
        }
    } else {
        match spec_decode_body(first_byte, bytes.take(remaining_length as int)) {
            Ok(packet) => Framing::Packet { packet, rest: bytes.skip(remaining_length as int) },
            Err(failure) => Framing::Failed { failure, rest: bytes.skip(remaining_length as int) },
        }
    }
}

/// Reads the length of a fixed header, and then what follows.
pub open spec fn spec_decode_length(
    first_byte: u8,
    result: nat,
    num_bytes_read: nat,
    bytes: Seq<u8>,
) -> Framing {
    match spec_decode_remaining_length(result, num_bytes_read, bytes) {
        RemainingLengthParse::Incomplete { result, num_bytes_read } => Framing::NeedMore {
            state: Progress::HaveFirstByte { first_byte, result, num_bytes_read },
            rest: Seq::empty(),
        },
        RemainingLengthParse::TooHigh { rest } => Framing::Failed {
            failure: DecodeFailure::RemainingLengthTooHigh,
            rest,
        },
        RemainingLengthParse::Done { value, rest } => spec_decode_framed(first_byte, value, rest),
    }
}

/// Reads a packet off the front of `bytes`, taking up where `state` left
/// off.
pub open spec fn spec_decode_stream(state: Progress, bytes: Seq<u8>) -> Framing {
    match state {
        Progress::Empty => if bytes.len() == 0 {
            Framing::NeedMore { state: Progress::Empty, rest: bytes }
        } else {
            spec_decode_length(bytes[0], 0, 0, bytes.skip(1))
        },
        Progress::HaveFirstByte { first_byte, result, num_bytes_read } => spec_decode_length(
            first_byte,
            result,
            num_bytes_read,
            bytes,
        ),
        Progress::HaveFixedHeader { first_byte, remaining_length } => spec_decode_framed(
            first_byte,
            remaining_length,
            bytes,
        ),
    }
}

/// Reads one whole packet off the front of `bytes`.
pub open spec fn spec_decode(bytes: Seq<u8>) -> Framing {
    spec_decode_stream(Progress::Empty, bytes)
}

impl PacketCodec {
    /// The state of the decoder.
    pub closed spec fn state(self) -> PacketDecoderState {
        self.decoder_state
    }

    /// A codec that has read no byte.
    pub fn new() -> (codec: Self)
        ensures
            codec.state() is Empty,
    {
        PacketCodec { decoder_state: PacketDecoderState::Empty }
    }

    /// Reads a packet off the front of `src`, taking up where an earlier call
    /// that ran out of bytes left off. The bytes read leave `src`. Once a
    /// packet is complete, or the bytes are found not to be one, the decoder
    /// starts afresh.
    pub fn decode(&mut self, src: &mut BytesMut) -> (decoded: Result<Option<Packet>, DecodeError>)
        ensures
            match spec_decode_stream(old(self).state()@, buf_bytes(*old(src))) {
                Framing::NeedMore { state, rest } => {
                    &&& decoded matches Ok(None)
                    &&& final(self).state()@ == state
                    &&& buf_bytes(*final(src)) == rest
                },
                Framing::Failed { failure, rest } => {
                    &&& decoded matches Err(err)
                    &&& err@ == failure
                    &&& final(self).state() is Empty
                    &&& buf_bytes(*final(src)) == rest
                },
                Framing::Packet { packet, rest } => {
                    &&& decoded matches Ok(Some(p))
                    &&& p@ == packet
                    &&& final(self).state() is Empty
                    &&& buf_bytes(*final(src)) == rest
                },
            },
    {
        let mut state = PacketDecoderState::Empty;
        core::mem::swap(&mut state, &mut self.decoder_state);
        let (first_byte, remaining_length) = match state {
            PacketDecoderState::Empty => {
                if buf_len(src) < 1 {
                    return Ok(None);
                }
                let first_byte: u8 = buf_as_slice(src)[0];
                buf_advance(src, 1);
                let mut remaining_length = RemainingLengthCodec::new();
                match remaining_length.decode(src)? {
                    Some(decoded) => (first_byte, decoded),
                    None => {
                        self.decoder_state =
                        PacketDecoderState::HaveFirstByte { first_byte, remaining_length };
                        return Ok(None);
                    },
                }
            },
            PacketDecoderState::HaveFirstByte { first_byte, mut remaining_length } => {
                match remaining_length.decode(src)? {
                    Some(decoded) => (first_byte, decoded),
                    None => {
                        self.decoder_state =
                        PacketDecoderState::HaveFirstByte { first_byte, remaining_length };
                        return Ok(None);
                    },
                }
            },
            PacketDecoderState::HaveFixedHeader { first_byte, remaining_length } => (
                first_byte,
                remaining_length,
            ),
        };
        if buf_len(src) < remaining_length {
            self.decoder_state = PacketDecoderState::HaveFixedHeader {
                first_byte,
                remaining_length,
            };
            return Ok(None);
        }
        let body = buf_split_to(src, remaining_length);
        match decode_body(first_byte, buf_as_slice(&body)) {
            Ok(packet) => Ok(Some(packet)),
            Err(err) => Err(err),
        }
    }

    /// Appends the bytes of `item` to `dst`, or leaves `dst` as it is and says
    /// which rule of the format the packet breaks.
    pub fn encode(&mut self, item: Packet, dst: &mut BytesMut) -> (encoded: Result<
        (),
        EncodeError,
    >)
        requires
            buf_bytes(*old(dst)).len() + MAX_PACKET_LENGTH <= isize::MAX,
        ensures
            *final(self) == *old(self),
            match spec_encode(item@) {
                Ok(bytes) => encoded is Ok && buf_bytes(*final(dst)) == buf_bytes(*old(dst))
                    + bytes,
                Err(failure) => {
                    &&& encoded matches Err(err)
                    &&& err@ == failure
                    &&& buf_bytes(*final(dst)) == buf_bytes(*old(dst))
                },
            },
    {
        let mut bytes: Vec<u8> = Vec::new();
        encode_packet(&item, &mut bytes)?;
        proof {
            assert(bytes@ =~= spec_encode(item@)->Ok_0);
        }
        buf_extend_from_slice(dst, bytes.as_slice());
        Ok(())
    }
}

} // verus!
