//! MQTT-format strings.
//!
//! Strings are prefixed with a two-byte big-endian length and are encoded as
//! UTF-8.
//!
//! Ref: 1.5.3 UTF-8 encoded strings

use crate::buffer::{
    buf_advance, buf_as_slice, buf_bytes, buf_extend_from_slice, buf_len, buf_split_to,
};
use crate::proto::wire::{append_string, spec_put_string, string_fits};
use crate::proto::{DecodeError, DecodeFailure, EncodeError, EncodeFailure};
use bytes::BytesMut;
use vstd::prelude::*;
use vstd::utf8::{decode_utf8, encode_utf8, valid_utf8};

verus! {

broadcast use vstd::utf8::group_utf8_lib;

/// A codec that encodes and decodes MQTT-format strings.
#[derive(Debug, Default)]
pub struct Utf8StringCodec {
    decoder_state: Utf8StringDecoderState,
}

/// How far the decoder has come in a string whose bytes have not all arrived.
#[derive(Debug)]
pub enum Utf8StringDecoderState {
    Empty,
    HaveLength(usize),
}

impl Default for Utf8StringDecoderState {
    fn default() -> (state: Self)
        ensures
            state is Empty,
    {
        Utf8StringDecoderState::Empty
    }
}

/// What reading a string off the front of some bytes comes to.
pub enum StringParse {
    /// The bytes ran out. `state` is how far the decoder came, and `rest` the
    /// bytes it left in place.
    Incomplete { state: Utf8StringDecoderState, rest: Seq<u8> },
    /// The bytes of the string are not UTF-8. `rest` follows them.
    NotUtf8 { rest: Seq<u8> },
    /// The string, and the bytes that follow it.
    Done { value: Seq<char>, rest: Seq<u8> },
}

/// Reads the `len` bytes of a string whose length is known.
pub open spec fn spec_decode_string_body(len: usize, bytes: Seq<u8>) -> StringParse {
    if bytes.len() < len {
        StringParse::Incomplete { state: Utf8StringDecoderState::HaveLength(len), rest: bytes }
    } else if !valid_utf8(bytes.take(len as int)) {
        StringParse::NotUtf8 { rest: bytes.skip(len as int) }
    } else {
        StringParse::Done {
            value: decode_utf8(bytes.take(len as int)),
            rest: bytes.skip(len as int),
        }
    }
}

/// Reads a string off the front of `bytes`, taking up where `state` left off.
pub open spec fn spec_decode_string(state: Utf8StringDecoderState, bytes: Seq<u8>) -> StringParse {
    match state {
        Utf8StringDecoderState::Empty => if bytes.len() < 2 {
            StringParse::Incomplete { state: Utf8StringDecoderState::Empty, rest: bytes }
        } else {
            spec_decode_string_body((bytes[0] * 0x100 + bytes[1]) as usize, bytes.skip(2))
        },
        Utf8StringDecoderState::HaveLength(len) => spec_decode_string_body(len, bytes),
    }
}

impl Utf8StringCodec {
    /// The state of the decoder.
    pub closed spec fn state(self) -> Utf8StringDecoderState {
        self.decoder_state
    }

    /// A codec that has read no byte.
    pub fn new() -> (codec: Self)
        ensures
            codec.state() is Empty,
    {
        Utf8StringCodec { decoder_state: Utf8StringDecoderState::Empty }
    }

    /// Reads a string off the front of `src`, taking up where an earlier call
    /// that ran out of bytes left off. The bytes read leave `src`. Once a
    /// string is complete, or found not to be UTF-8, the decoder starts
    /// afresh.
    pub fn decode(&mut self, src: &mut BytesMut) -> (decoded: Result<Option<String>, DecodeError>)
        ensures
            match spec_decode_string(old(self).state(), buf_bytes(*old(src))) {
                StringParse::Incomplete { state, rest } => {
                    &&& decoded matches Ok(None)
                    &&& final(self).state() == state
                    &&& buf_bytes(*final(src)) == rest
                },
                StringParse::NotUtf8 { rest } => {
                    &&& decoded matches Err(err)
                    &&& err@ == DecodeFailure::StringNotUtf8
                    &&& final(self).state() is Empty
                    &&& buf_bytes(*final(src)) == rest
                },
                StringParse::Done { value, rest } => {
                    &&& decoded matches Ok(Some(s))
                    &&& s@ == value
                    &&& final(self).state() is Empty
                    &&& buf_bytes(*final(src)) == rest
                },
            },
    {
        let len: usize = match self.decoder_state {
            Utf8StringDecoderState::Empty => {
                if buf_len(src) < 2 {
                    return Ok(None);
                }
                let prefix = buf_as_slice(src);
                let len: usize = (prefix[0] as usize) * 0x100 + (prefix[1] as usize);
                buf_advance(src, 2);
                self.decoder_state = Utf8StringDecoderState::HaveLength(len);
                len
            },
            Utf8StringDecoderState::HaveLength(len) => len,
        };
        if buf_len(src) < len {
            return Ok(None);
        }
        let body = buf_split_to(src, len);
        self.decoder_state = Utf8StringDecoderState::Empty;
        match core::str::from_utf8(buf_as_slice(&body)) {
            Ok(s) => Ok(Some(s.to_owned())),
            Err(err) => Err(DecodeError::StringNotUtf8(err)),
        }
    }

    /// Appends the length and the bytes of `item` to `dst`, or leaves `dst` as
    /// it is where the string is longer than 65 535 bytes.
    pub fn encode(&mut self, item: String, dst: &mut BytesMut) -> (encoded: Result<
        (),
        EncodeError,
    >)
        requires
            buf_bytes(*old(dst)).len() + 2 + u16::MAX <= isize::MAX,
        ensures
            final(self).state() == old(self).state(),
            string_fits(item@) ==> encoded is Ok && buf_bytes(*final(dst)) == buf_bytes(*old(dst))
                + spec_put_string(item@),
            !string_fits(item@) ==> {
                &&& encoded matches Err(err)
                &&& err@ == EncodeFailure::StringTooLarge(encode_utf8(item@).len())
                &&& buf_bytes(*final(dst)) == buf_bytes(*old(dst))
            },
    {
        let mut encoded: Vec<u8> = Vec::new();
        append_string(item.as_str(), &mut encoded)?;
        buf_extend_from_slice(dst, encoded.as_slice());
        Ok(())
    }
}

} // verus!
