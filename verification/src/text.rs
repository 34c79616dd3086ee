//! Text and integer conversions of the standard library.
use vstd::endian::{endianness, Endian};
use vstd::prelude::*;
use vstd::string::StringSliceAdditionalSpecFns;
use vstd::utf8::valid_utf8;

verus! {

/// The UTF-8 bytes of the characters `s`.
pub open spec fn text_bytes(s: Seq<char>) -> Seq<u8> {
    vstd::utf8::encode_utf8(s)
}

/// `std::str::from_utf8`: the same bytes read as text where they are valid
/// UTF-8, `None` otherwise.
#[verifier::external_body]
pub(crate) fn utf8_str(b: &[u8]) -> (r: Option<&str>)
    ensures
        r is Some <==> valid_utf8(b@),
        r matches Some(s) ==> s.spec_bytes() == b@,
{
    std::str::from_utf8(b).ok()
}

/// The value of `x` with its four bytes in reverse order.
pub open spec fn swap_bytes_u32(x: u32) -> int {
    (x % 256) * 0x1000000 + ((x / 256) % 256) * 0x10000 + ((x / 0x10000) % 256) * 256 + x / 0x1000000
}

/// `u32::from_le`: a no-op on a little-endian target; on a big-endian target
/// the bytes are swapped.
#[verifier::external_body]
pub(crate) fn u32_from_le(x: u32) -> (r: u32)
    ensures
        endianness() == Endian::Little ==> r == x,
        endianness() == Endian::Big ==> r == swap_bytes_u32(x),
{
    u32::from_le(x)
}

} // verus!
