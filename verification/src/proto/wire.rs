//! The primitive fields of the wire format: bytes, big-endian two-byte
//! integers, length-prefixed UTF-8 strings and packet identifiers.
//!
//! Reading is stated as a function from bytes to a value and the bytes that
//! follow it; writing as the bytes a value becomes.

use crate::proto::{DecodeError, DecodeFailure, EncodeError, EncodeFailure, PacketIdentifier};
use vstd::prelude::*;
use vstd::slice::slice_subrange;
use vstd::utf8::{decode_utf8, encode_utf8, valid_utf8};

verus! {

broadcast use vstd::utf8::group_utf8_lib;

/// The two bytes of `n`, most significant first.
pub open spec fn spec_put_u16(n: u16) -> Seq<u8> {
    seq![(n / 0x100) as u8, (n % 0x100) as u8]
}

/// The bytes of a string: its length in bytes, then its UTF-8 encoding.
/// Meaningful where that length fits in two bytes.
pub open spec fn spec_put_string(s: Seq<char>) -> Seq<u8> {
    spec_put_u16(encode_utf8(s).len() as u16) + encode_utf8(s)
}

/// Whether a string is short enough to be written.
pub open spec fn string_fits(s: Seq<char>) -> bool {
    encode_utf8(s).len() <= u16::MAX
}

/// Reads one byte.
pub open spec fn spec_get_u8(bytes: Seq<u8>) -> Result<(u8, Seq<u8>), DecodeFailure> {
    if bytes.len() < 1 {
        Err(DecodeFailure::IncompletePacket)
    } else {
        Ok((bytes[0], bytes.skip(1)))
    }
}

/// Reads a big-endian two-byte integer.
pub open spec fn spec_get_u16(bytes: Seq<u8>) -> Result<(u16, Seq<u8>), DecodeFailure> {
    if bytes.len() < 2 {
        Err(DecodeFailure::IncompletePacket)
    } else {
        Ok(((bytes[0] * 0x100 + bytes[1]) as u16, bytes.skip(2)))
    }
}

/// Reads a packet identifier, which must not be zero.
pub open spec fn spec_get_packet_identifier(bytes: Seq<u8>) -> Result<
    (u16, Seq<u8>),
    DecodeFailure,
> {
    match spec_get_u16(bytes) {
        Err(err) => Err(err),
        Ok((raw, rest)) => if raw == 0 {
            Err(DecodeFailure::ZeroPacketIdentifier)
        } else {
            Ok((raw, rest))
        },
    }
}

/// Reads a string: a two-byte length, then that many bytes of UTF-8.
pub open spec fn spec_get_string(bytes: Seq<u8>) -> Result<(Seq<char>, Seq<u8>), DecodeFailure> {
    match spec_get_u16(bytes) {
        Err(err) => Err(err),
        Ok((len, rest)) => if rest.len() < len {
            Err(DecodeFailure::IncompletePacket)
        } else if !valid_utf8(rest.take(len as int)) {
            Err(DecodeFailure::StringNotUtf8)
        } else {
            Ok((decode_utf8(rest.take(len as int)), rest.skip(len as int)))
        },
    }
}

/// Whether what an executable reader returned is what the format says.
pub open spec fn read_as<T>(
    got: Result<(T, &[u8]), DecodeError>,
    expected: Result<(T, Seq<u8>), DecodeFailure>,
) -> bool {
    match expected {
        Ok((value, rest)) => got matches Ok((v, r)) && v == value && r@ == rest,
        Err(failure) => got matches Err(err) && err@ == failure,
    }
}

/// Whether the string that an executable reader returned is what the format
/// says.
pub open spec fn read_string_as(
    got: Result<(String, &[u8]), DecodeError>,
    expected: Result<(Seq<char>, Seq<u8>), DecodeFailure>,
) -> bool {
    match expected {
        Ok((value, rest)) => got matches Ok((v, r)) && v@ == value && r@ == rest,
        Err(failure) => got matches Err(err) && err@ == failure,
    }
}

pub(crate) fn take_u8<'a>(src: &'a [u8]) -> (got: Result<(u8, &'a [u8]), DecodeError>)
    ensures
        read_as(got, spec_get_u8(src@)),
{
    if src.len() < 1 {
        return Err(DecodeError::IncompletePacket);
    }
    Ok((src[0], slice_subrange(src, 1, src.len())))
}

pub(crate) fn take_u16<'a>(src: &'a [u8]) -> (got: Result<(u16, &'a [u8]), DecodeError>)
    ensures
        read_as(got, spec_get_u16(src@)),
{
    if src.len() < 2 {
        return Err(DecodeError::IncompletePacket);
    }
    let value: u16 = (src[0] as u16) * 0x100 + (src[1] as u16);
    Ok((value, slice_subrange(src, 2, src.len())))
}

pub(crate) fn take_packet_identifier<'a>(src: &'a [u8]) -> (got: Result<
    (PacketIdentifier, &'a [u8]),
    DecodeError,
>)
    ensures
        match spec_get_packet_identifier(src@) {
            Ok((raw, rest)) => got matches Ok((id, r)) && id@ == raw && r@ == rest,
            Err(failure) => got matches Err(err) && err@ == failure,
        },
{
    let (raw, rest) = take_u16(src)?;
    match PacketIdentifier::new(raw) {
        Some(packet_identifier) => Ok((packet_identifier, rest)),
        None => Err(DecodeError::ZeroPacketIdentifier),
    }
}

pub(crate) fn take_string<'a>(src: &'a [u8]) -> (got: Result<(String, &'a [u8]), DecodeError>)
    ensures
        read_string_as(got, spec_get_string(src@)),
{
    let (len, rest) = take_u16(src)?;
    let len: usize = len as usize;
    if rest.len() < len {
        return Err(DecodeError::IncompletePacket);
    }
    let body = slice_subrange(rest, 0, len);
    let s = match core::str::from_utf8(body) {
        Ok(s) => s.to_owned(),
        Err(err) => return Err(DecodeError::StringNotUtf8(err)),
    };
    Ok((s, slice_subrange(rest, len, rest.len())))
}

pub(crate) fn append_u16(n: u16, dst: &mut Vec<u8>)
    ensures
        final(dst)@ == old(dst)@ + spec_put_u16(n),
{
    dst.push((n / 0x100) as u8);
    dst.push((n % 0x100) as u8);
    proof {
        assert(dst@ =~= old(dst)@ + spec_put_u16(n));
    }
}

pub(crate) fn append_packet_identifier(packet_identifier: PacketIdentifier, dst: &mut Vec<u8>)
    ensures
        final(dst)@ == old(dst)@ + spec_put_u16(packet_identifier@),
{
    append_u16(packet_identifier.get(), dst);
}

/// Appends all of `data`.
pub(crate) fn append_bytes(data: &[u8], dst: &mut Vec<u8>)
    ensures
        final(dst)@ == old(dst)@ + data@,
{
    let mut i: usize = 0;
    while i < data.len()
        invariant
            i <= data.len(),
            dst@ == old(dst)@ + data@.take(i as int),
        decreases data.len() - i,
    {
        dst.push(data[i]);
        i = i + 1;
        proof {
            assert(dst@ =~= old(dst)@ + data@.take(i as int));
        }
    }
    proof {
        assert(data@.take(data.len() as int) =~= data@);
    }
}

/// Appends a string, or leaves `dst` as it is where the string is too long.
pub(crate) fn append_string(item: &str, dst: &mut Vec<u8>) -> (appended: Result<(), EncodeError>)
    ensures
        string_fits(item@) ==> appended is Ok && final(dst)@ == old(dst)@ + spec_put_string(
            item@,
        ),
        !string_fits(item@) ==> {
            &&& appended matches Err(err)
            &&& err@ == EncodeFailure::StringTooLarge(encode_utf8(item@).len())
            &&& final(dst)@ == old(dst)@
        },
{
    let bytes = item.as_bytes();
    let len: usize = bytes.len();
    if len > 0xFFFF {
        return Err(EncodeError::StringTooLarge(len));
    }
    append_u16(len as u16, dst);
    append_bytes(bytes, dst);
    proof {
        assert(dst@ =~= old(dst)@ + spec_put_string(item@));
    }
    Ok(())
}

/// A two-byte integer is read back from its bytes, whatever follows them.
pub proof fn lemma_u16_round_trip(n: u16, rest: Seq<u8>)
    ensures
        spec_get_u16(spec_put_u16(n) + rest) == Ok::<(u16, Seq<u8>), DecodeFailure>((n, rest)),
{
    let bytes = spec_put_u16(n) + rest;
    assert(bytes[0] == (n / 0x100) as u8);
    assert(bytes[1] == (n % 0x100) as u8);
    assert(bytes.skip(2) =~= rest);
}

/// A string that fits is read back from its bytes, whatever follows them.
pub proof fn lemma_string_round_trip(s: Seq<char>, rest: Seq<u8>)
    requires
        string_fits(s),
    ensures
        spec_get_string(spec_put_string(s) + rest) == Ok::<(Seq<char>, Seq<u8>), DecodeFailure>(
            (s, rest),
        ),
{
    let len = encode_utf8(s).len() as u16;
    let tail = encode_utf8(s) + rest;
    assert(spec_put_string(s) + rest =~= spec_put_u16(len) + tail);
    lemma_u16_round_trip(len, tail);
    assert(tail.take(len as int) =~= encode_utf8(s));
    assert(tail.skip(len as int) =~= rest);
}

} // verus!
