//! Raw Ethernet frames, as `bytes::Bytes`.
use bytes::Bytes;
use vstd::prelude::*;

verus! {

/// An Ethernet frame.
pub type Frame = Bytes;

/// `bytes::Bytes`, an immutable run of bytes that can be shared cheaply.
#[verifier::external_type_specification]
#[verifier::external_body]
pub struct ExBytes(Bytes);

/// The bytes that a frame holds.
pub uninterp spec fn frame_bytes(frame: Bytes) -> Seq<u8>;

/// `<Bytes as Clone>::clone` hands out a second handle of the same bytes.
pub assume_specification[ <Bytes as Clone>::clone ](frame: &Bytes) -> (r: Bytes)
    ensures
        frame_bytes(r) == frame_bytes(*frame),
;

/// `Bytes::copy_from_slice` makes a frame that holds the bytes of the slice.
pub assume_specification[ Bytes::copy_from_slice ](data: &[u8]) -> (r: Bytes)
    ensures
        frame_bytes(r) == data@,
;

/// `<Bytes as AsRef<[u8]>>::as_ref` gives the bytes of the frame.
#[verifier::external_body]
pub(crate) fn frame_slice(frame: &Frame) -> (r: &[u8])
    ensures
        r@ == frame_bytes(*frame),
{
    frame.as_ref()
}

} // verus!
