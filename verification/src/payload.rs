//! The sample payload buffer type of the `bytes` crate, declared for the
//! verifier, with the small set of operations the fragment writer needs.
use vstd::prelude::*;

verus! {

#[verifier::external_type_specification]
#[verifier::external_body]
pub struct ExBytes(bytes::Bytes);

/// What a `bytes::Bytes` buffer holds, as a sequence of bytes.
pub uninterp spec fn bytes_contents(b: bytes::Bytes) -> Seq<u8>;

/// Relies on `bytes::Bytes::len`: the length of the buffer's contents.
#[verifier::external_body]
pub fn bytes_len(b: &bytes::Bytes) -> (r: usize)
    ensures
        r == bytes_contents(*b).len(),
{
    b.len()
}

/// Relies on `bytes::Bytes::clone`: a clone is a handle to the same bytes.
pub assume_specification[ <bytes::Bytes as Clone>::clone ](b: &bytes::Bytes) -> (r: bytes::Bytes)
    ensures
        bytes_contents(r) == bytes_contents(*b),
;

/// Relies on `bytes::Bytes::copy_from_slice`: the new buffer holds a copy of
/// the slice.
#[verifier::external_body]
pub fn bytes_from_vec(v: &Vec<u8>) -> (r: bytes::Bytes)
    ensures
        bytes_contents(r) == v@,
{
    bytes::Bytes::copy_from_slice(v.as_slice())
}

/// Relies on `Vec::extend_from_slice` and on `Bytes`'s deref to `[u8]`:
/// appends the buffer's contents to `out`.
#[verifier::external_body]
pub fn bytes_append_to(out: &mut Vec<u8>, b: &bytes::Bytes)
    ensures
        final(out)@ == old(out)@ + bytes_contents(*b),
{
    out.extend_from_slice(b)
}

} // verus!
