use vstd::prelude::*;

use bytes::BytesMut;

verus! {

/// `bytes::BytesMut`, the growable byte buffer that the codec reads from and writes to.
#[verifier::external_type_specification]
#[verifier::external_body]
pub struct ExBytesMut(BytesMut);

/// The bytes that a `BytesMut` holds, front to back.
pub uninterp spec fn buffer_contents(buf: BytesMut) -> Seq<u8>;

/// Copies out the bytes of `buf` (`<[u8]>::to_vec` on the slice `BytesMut`
/// dereferences to). Trusted: the copy holds exactly the buffer's bytes, in order.
#[verifier::external_body]
pub(crate) fn buffer_bytes(buf: &BytesMut) -> (v: Vec<u8>)
    ensures
        v@ == buffer_contents(*buf),
{
    buf.to_vec()
}

/// Appends `data` to `buf` with `BytesMut::extend_from_slice`. Trusted: the
/// buffer afterwards holds its former bytes followed by `data`.
#[verifier::external_body]
pub(crate) fn buffer_extend(buf: &mut BytesMut, data: &[u8])
    ensures
        buffer_contents(*final(buf)) == buffer_contents(*old(buf)) + data@,
{
    buf.extend_from_slice(data)
}

/// Drops the first `n` bytes of `buf` with `bytes::Buf::advance`, which panics
/// when `n` exceeds the buffer's length. Trusted: the buffer afterwards holds
/// its former bytes without the first `n`.
#[verifier::external_body]
pub(crate) fn buffer_advance(buf: &mut BytesMut, n: usize)
    requires
        n <= buffer_contents(*old(buf)).len(),
    ensures
        buffer_contents(*final(buf)) == buffer_contents(*old(buf)).skip(n as int),
{
    bytes::Buf::advance(buf, n)
}

} // verus!
