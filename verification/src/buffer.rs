//! The byte buffer that the codecs read from and write to.
//!
//! `bytes::BytesMut` is opaque to the verifier. Its contents are named by
//! [`buf_bytes`], and every operation the codecs perform on a buffer goes
//! through one of the functions of this module, whose contracts are taken on
//! trust from the `bytes` crate.

use vstd::prelude::*;

verus! {

#[verifier::external_type_specification]
#[verifier::external_body]
pub struct ExBytesMut(bytes::BytesMut);

/// The bytes that a buffer holds, first to last.
pub uninterp spec fn buf_bytes(buf: bytes::BytesMut) -> Seq<u8>;

/// `BytesMut::len`: the number of bytes held.
#[verifier::external_body]
pub(crate) fn buf_len(buf: &bytes::BytesMut) -> (n: usize)
    ensures
        n == buf_bytes(*buf).len(),
{
    buf.len()
}

/// `<BytesMut as AsRef<[u8]>>::as_ref`: the bytes held, as a slice.
#[verifier::external_body]
pub(crate) fn buf_as_slice(buf: &bytes::BytesMut) -> (s: &[u8])
    ensures
        s@ == buf_bytes(*buf),
{
    buf.as_ref()
}

/// `BytesMut::advance`: drops the first `cnt` bytes and keeps the rest.
/// It panics when `cnt` exceeds the length, which the precondition rules out.
#[verifier::external_body]
pub(crate) fn buf_advance(buf: &mut bytes::BytesMut, cnt: usize)
    requires
        cnt <= buf_bytes(*old(buf)).len(),
    ensures
        buf_bytes(*final(buf)) == buf_bytes(*old(buf)).skip(cnt as int),
{
    buf.advance(cnt)
}

/// `BytesMut::split_to`: afterwards the buffer holds the bytes from `at` on,
/// and the returned buffer holds the bytes before `at`. It panics when `at`
/// exceeds the length, which the precondition rules out.
#[verifier::external_body]
pub(crate) fn buf_split_to(buf: &mut bytes::BytesMut, at: usize) -> (head: bytes::BytesMut)
    requires
        at <= buf_bytes(*old(buf)).len(),
    ensures
        buf_bytes(head) == buf_bytes(*old(buf)).take(at as int),
        buf_bytes(*final(buf)) == buf_bytes(*old(buf)).skip(at as int),
{
    buf.split_to(at)
}

/// `BytesMut::extend_from_slice`: appends `data`, growing the buffer first
/// where its capacity does not suffice. Growing panics when the new capacity
/// cannot be represented, which the precondition rules out.
#[verifier::external_body]
pub(crate) fn buf_extend_from_slice(buf: &mut bytes::BytesMut, data: &[u8])
    requires
        buf_bytes(*old(buf)).len() + data@.len() <= isize::MAX,
    ensures
        buf_bytes(*final(buf)) == buf_bytes(*old(buf)) + data@,
{
    buf.extend_from_slice(data)
}

} // verus!
