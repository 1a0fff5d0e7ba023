use vstd::prelude::*;

verus! {

use vstd::utf8::{encode_utf8, decode_utf8, valid_utf8, is_ascii_chars};
use vstd::utf8::{encode_utf8_valid_utf8, encode_utf8_decode_utf8, is_ascii_chars_encode_utf8};

/// Relies on String::from_utf8: it accepts exactly the byte sequences that
/// are valid UTF-8, and the returned string holds exactly the given bytes.
#[verifier::external_body]
pub fn bytes_to_string(bytes: Vec<u8>) -> (r: Option<String>)
    ensures
        (r matches Some(s) ==> encode_utf8(s@) == bytes@),
        valid_utf8(bytes@) ==> r is Some,
{
    match String::from_utf8(bytes) {
        Ok(s) => Some(s),
        Err(_) => None,
    }
}

/// A sequence of bytes below 0x80 is valid UTF-8: it encodes the characters
/// with the same code points, one byte each.
pub proof fn lemma_ascii_bytes_valid(bytes: Seq<u8>)
    requires
        forall|i: int| 0 <= i < bytes.len() ==> bytes[i] < 128,
    ensures
        valid_utf8(bytes),
        decode_utf8(bytes).len() == bytes.len(),
        forall|i: int| 0 <= i < bytes.len() ==> decode_utf8(bytes)[i] == bytes[i] as char,
{
    let chars = Seq::new(bytes.len(), |i: int| bytes[i] as char);
    assert(is_ascii_chars(chars));
    is_ascii_chars_encode_utf8(chars);
    assert(encode_utf8(chars) =~= bytes);
    encode_utf8_valid_utf8(chars);
    encode_utf8_decode_utf8(chars);
}

/// Encoding to UTF-8 loses nothing: equal encodings come from equal strings.
pub proof fn lemma_encode_utf8_injective(a: Seq<char>, b: Seq<char>)
    requires
        encode_utf8(a) == encode_utf8(b),
    ensures
        a == b,
{
    encode_utf8_decode_utf8(a);
    encode_utf8_decode_utf8(b);
}

/// Builds the string whose characters are the given ASCII bytes.
pub fn ascii_to_string(bytes: Vec<u8>) -> (r: String)
    requires
        forall|i: int| 0 <= i < bytes@.len() ==> bytes@[i] < 128,
    ensures
        r@.len() == bytes@.len(),
        forall|i: int| 0 <= i < bytes@.len() ==> r@[i] == bytes@[i] as char,
{
    let ghost b = bytes@;
    proof {
        lemma_ascii_bytes_valid(b);
    }
    match bytes_to_string(bytes) {
        Some(s) => {
            proof {
                encode_utf8_decode_utf8(s@);
            }
            s
        },
        None => vstd::pervasive::unreached(),
    }
}

} // verus!
