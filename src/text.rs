//! Fixed-capacity ASCII text buffers, held in `heapless::String`.

use vstd::prelude::*;

verus! {

#[verifier::external_type_specification]
#[verifier::external_body]
pub struct ExHeaplessString<const N: usize>(heapless::String<N>);

/// The bytes held by a text buffer.
pub uninterp spec fn text_bytes(s: heapless::String<32>) -> Seq<u8>;

/// Relies on heapless::String::new: the new string holds no bytes.
#[verifier::external_body]
pub(crate) fn text_new() -> (r: heapless::String<32>)
    ensures
        text_bytes(r) == Seq::<u8>::empty(),
{
    heapless::String::new()
}

/// Relies on heapless::String::push: an ASCII character is one byte, appended
/// when fewer than 32 bytes are held; otherwise the string is left unchanged.
#[verifier::external_body]
fn text_push(s: &mut heapless::String<32>, c: char) -> (r: bool)
    requires
        (c as u32) < 128,
    ensures
        r == (text_bytes(*old(s)).len() < 32),
        r ==> text_bytes(*final(s)) == text_bytes(*old(s)).push(c as u8),
        !r ==> text_bytes(*final(s)) == text_bytes(*old(s)),
{
    s.push(c).is_ok()
}

/// Appends one ASCII character to a buffer that has room for it.
pub(crate) fn put(out: &mut heapless::String<32>, c: char)
    requires
        (c as u32) < 128,
        text_bytes(*old(out)).len() < 32,
    ensures
        text_bytes(*final(out)) == text_bytes(*old(out)).push(c as u8),
{
    let _ = text_push(out, c);
}

/// ASCII code of the decimal digit `d`.
pub open spec fn digit_byte(d: nat) -> u8 {
    (48 + d) as u8
}

/// Appends the ASCII digit for `d` to a buffer that has room for it.
pub(crate) fn put_digit(out: &mut heapless::String<32>, d: u8)
    requires
        d < 10,
        text_bytes(*old(out)).len() < 32,
    ensures
        text_bytes(*final(out)) == text_bytes(*old(out)).push(digit_byte(d as nat)),
{
    let c = (48u8 + d) as char;
    put(out, c);
}

} // verus!
