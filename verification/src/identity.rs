//! The finalized-identity sentinel and the content-hash oracle.
//!
//! An episode whose stored identity is exactly 32 hexadecimal characters is
//! finalized: its content has been fetched and fingerprinted and no further
//! download is owed.  Any other identity (absent, or shaped otherwise) means
//! the episode is still pending.

use vstd::prelude::*;

verus! {

use vstd::string::StrSliceExecFns;

/// A hexadecimal digit, either case.
pub open spec fn is_hex_digit(c: char) -> bool {
    ('0' <= c && c <= '9') || ('a' <= c && c <= 'f') || ('A' <= c && c <= 'F')
}

/// A lower-case hexadecimal digit.
pub open spec fn is_lower_hex_digit(c: char) -> bool {
    ('0' <= c && c <= '9') || ('a' <= c && c <= 'f')
}

/// The sentinel for "fetched and fingerprinted": exactly 32 hexadecimal
/// characters.
pub open spec fn is_final_identity(t: Seq<char>) -> bool {
    t.len() == 32 && forall|i: int| 0 <= i < t.len() ==> is_hex_digit(#[trigger] t[i])
}

/// Decides the sentinel on an identity string.
pub fn is_final_identity_str(s: &str) -> (r: bool)
    ensures
        r == is_final_identity(s@),
{
    let len = s.unicode_len();
    if len != 32 {
        return false;
    }
    let mut i: usize = 0;
    while i < len
        invariant
            len == s@.len(),
            i <= len,
            forall|j: int| 0 <= j < i ==> is_hex_digit(#[trigger] s@[j]),
        decreases len - i,
    {
        let c = s.get_char(i);
        let hex = ('0' <= c && c <= '9') || ('a' <= c && c <= 'f') || ('A' <= c && c <= 'F');
        if !hex {
            return false;
        }
        i += 1;
    }
    true
}

/// What the digest oracle returns for a byte sequence: a function of the
/// bytes alone.
pub uninterp spec fn md5_hex_of(data: Seq<u8>) -> Seq<char>;

/// Relies on checksums::hash_reader with the MD5 algorithm: the digest
/// depends on the bytes alone and is rendered as two hexadecimal characters
/// per digest byte, so 32 in all; it is lower-cased here before use.
#[verifier::external_body]
pub(crate) fn md5_hex(data: &Vec<u8>) -> (r: String)
    ensures
        r@ == md5_hex_of(data@),
        is_final_identity(r@),
        forall|i: int| 0 <= i < r@.len() ==> is_lower_hex_digit(#[trigger] r@[i]),
{
    let mut bytes: &[u8] = data.as_slice();
    checksums::hash_reader(&mut bytes, checksums::Algorithm::MD5).to_lowercase()
}

} // verus!
