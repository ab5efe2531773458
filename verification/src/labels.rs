//! DNS label utilities: case-insensitive label comparison, conversions
//! between strings and label bytes, and the base32 encoding used for file
//! names (through the `base32` crate).

use vstd::prelude::*;
use vstd::utf8::{valid_utf8, decode_utf8, encode_utf8};

verus! {

/// ASCII lowercase of one byte.
pub open spec fn lower_byte(b: u8) -> u8 {
    if 65 <= b <= 90 {
        (b + 32) as u8
    } else {
        b
    }
}

/// Case-insensitive equality of two labels, as DNS compares name labels.
pub open spec fn labels_eq_ci(a: Seq<u8>, b: Seq<u8>) -> bool {
    a.len() == b.len() && forall|i: int|
        0 <= i < a.len() ==> #[trigger] lower_byte(a[i]) == lower_byte(b[i])
}

/// Every label compares equal to itself, case-insensitively.
pub proof fn lemma_labels_eq_ci_refl(a: Seq<u8>)
    ensures
        labels_eq_ci(a, a),
{
}

/// Compares two labels byte for byte, ignoring ASCII case.
pub fn label_eq_ci(a: &[u8], b: &[u8]) -> (r: bool)
    ensures
        r == labels_eq_ci(a@, b@),
{
    if a.len() != b.len() {
        return false;
    }
    let mut i: usize = 0;
    while i < a.len()
        invariant
            a@.len() == b@.len(),
            0 <= i <= a@.len(),
            forall|j: int| 0 <= j < i ==> #[trigger] lower_byte(a@[j]) == lower_byte(b@[j]),
        decreases a@.len() - i,
    {
        let mut x: u8 = a[i];
        let mut y: u8 = b[i];
        if x >= 65 && x <= 90 {
            x = x + 32;
        }
        if y >= 65 && y <= 90 {
            y = y + 32;
        }
        if x != y {
            proof {
                assert(lower_byte(a@[i as int]) != lower_byte(b@[i as int]));
            }
            return false;
        }
        i = i + 1;
    }
    true
}

/// The UTF-8 bytes of a string, as one DNS label.
pub fn string_to_bytes(s: &str) -> (r: Vec<u8>)
    ensures
        r@ == encode_utf8(s@),
{
    vstd::slice::slice_to_vec(s.as_bytes())
}

/// Relies on `String::from_utf8`: it yields the string whose UTF-8 encoding
/// is the given bytes, and fails exactly when the bytes are not valid UTF-8.
#[verifier::external_body]
pub(crate) fn bytes_to_string(v: Vec<u8>) -> (r: Option<String>)
    ensures
        match r {
            Some(s) => valid_utf8(v@) && encode_utf8(s@) == v@,
            None => !valid_utf8(v@),
        },
{
    match String::from_utf8(v) {
        Ok(s) => Some(s),
        Err(_) => None,
    }
}

/// What `base32::encode` with the Crockford alphabet returns for given
/// bytes: the characters of the encoded string.
pub uninterp spec fn base32_encoding(data: Seq<u8>) -> Seq<char>;

/// What `base32::decode` with the Crockford alphabet returns for a string:
/// the decoded bytes, or nothing when the string is not such an encoding.
pub uninterp spec fn base32_decoding(s: Seq<char>) -> Option<Seq<u8>>;

/// Relies on `base32::encode` with the Crockford alphabet: the output is a
/// function of the input bytes alone, and `base32::decode` inverts it (the
/// crate's `invertible_crockford` test states this round trip).
#[verifier::external_body]
pub(crate) fn base32_encode_str(data: &[u8]) -> (r: String)
    ensures
        r@ == base32_encoding(data@),
        base32_decoding(r@) == Some(data@),
{
    base32::encode(base32::Alphabet::Crockford, data)
}

/// Relies on `base32::decode` with the Crockford alphabet: the result is a
/// function of the input characters alone.
#[verifier::external_body]
pub(crate) fn base32_decode_str(s: &str) -> (r: Option<Vec<u8>>)
    ensures
        match r {
            Some(v) => base32_decoding(s@) == Some(v@),
            None => base32_decoding(s@) is None,
        },
{
    base32::decode(base32::Alphabet::Crockford, s)
}

} // verus!
