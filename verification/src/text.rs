//! Text built from bytes.
use vstd::prelude::*;
use vstd::slice::{slice_subrange, slice_to_vec};
use vstd::utf8::{decode_utf8, valid_utf8};

verus! {

/// `String::from_utf8`: the standard library accepts exactly the byte
/// sequences that are valid UTF-8 and then holds the characters they encode.
#[verifier::external_body]
fn string_from_utf8(bytes: Vec<u8>) -> (res: Option<String>)
    ensures
        res is Some <==> valid_utf8(bytes@),
        res matches Some(t) ==> t@ == decode_utf8(bytes@),
{
    String::from_utf8(bytes).ok()
}

/// The text of the bytes from `a` to `b`, when they are UTF-8.
pub open spec fn utf8_text(s: Seq<u8>, a: int, b: int) -> Option<Seq<char>> {
    let bytes = s.subrange(a, b);
    if valid_utf8(bytes) {
        Some(decode_utf8(bytes))
    } else {
        None
    }
}

/// The bytes from `a` to `b` as a `String`, when they are UTF-8.
pub fn text_between(s: &[u8], a: usize, b: usize) -> (res: Option<String>)
    requires
        a <= b <= s@.len(),
    ensures
        res.deep_view() == utf8_text(s@, a as int, b as int),
{
    string_from_utf8(slice_to_vec(slice_subrange(s, a, b)))
}

} // verus!
