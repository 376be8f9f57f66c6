//! Content hashing: a value's canonical text form is digested with a 512-bit
//! cryptographic hash and the digest is rendered as a non-padded hexadecimal
//! string. The non-padding makes the string's length vary between 64 and 128
//! characters; the proof-of-work acceptance test depends on that layout.

use sha3::Digest;
use vstd::prelude::*;

use crate::canon::{hex_nopad, lemma_hex_nopad_len};

verus! {

/// The 64-byte digest that the outside hash function returns for an input.
pub uninterp spec fn sha3_512_of(input: Seq<u8>) -> Seq<u8>;

/// Relies on sha3::Sha3_512 (through digest::Digest::digest): the SHA3-512
/// digest of the input bytes, a function of the input alone, 64 bytes long.
#[verifier::external_body]
fn sha3_512(input: &[u8]) -> (r: Vec<u8>)
    ensures
        r@ == sha3_512_of(input@),
        r@.len() == 64,
{
    sha3::Sha3_512::digest(input).to_vec()
}

/// The content hash of a canonical string: the non-padded hexadecimal
/// rendering of the 512-bit digest of its UTF-8 bytes.
pub open spec fn hash_of(s: Seq<char>) -> Seq<char> {
    hex_nopad(sha3_512_of(vstd::utf8::encode_utf8(s)))
}

/// Renders a byte sequence as non-padded hexadecimal: each byte below sixteen
/// becomes a single digit, every other byte two digits.
pub fn hex_to_string(vec_res: &[u8]) -> (r: String)
    ensures
        r@ == hex_nopad(vec_res@),
{
    let mut s = String::new();
    let mut i: usize = 0;
    while i < vec_res.len()
        invariant
            i <= vec_res@.len(),
            s@ == hex_nopad(vec_res@.take(i as int)),
        decreases vec_res@.len() - i,
    {
        let b = vec_res[i];
        if b < 16 {
            s.append(crate::canon::hex_digit_str(b));
        } else {
            s.append(crate::canon::hex_digit_str(b / 16));
            s.append(crate::canon::hex_digit_str(b % 16));
        }
        proof {
            assert(vec_res@.take(i + 1 as int).drop_last() =~= vec_res@.take(i as int));
            assert(s@ =~= hex_nopad(vec_res@.take(i + 1 as int)));
        }
        i = i + 1;
    }
    proof {
        assert(vec_res@.take(vec_res@.len() as int) =~= vec_res@);
    }
    s
}

/// Computes the content hash of a canonical string.
pub fn hash(item: &str) -> (r: String)
    ensures
        r@ == hash_of(item@),
        64 <= r@.len() <= 128,
{
    let digest = sha3_512(item.as_bytes());
    proof {
        lemma_hex_nopad_len(digest@);
    }
    hex_to_string(digest.as_slice())
}

} // verus!
