//! SHA-256 digests and their lowercase hex text.
use vstd::prelude::*;
use sha2::Digest;

verus! {

/// The SHA-256 digest of a byte string.
pub uninterp spec fn sha256_of(data: Seq<u8>) -> Seq<u8>;

/// Calls `sha2::Sha256::digest`.  The contract claims that the digest is
/// `sha256_of` the input (a function of the bytes alone) and that it is 32
/// bytes long, the output size of SHA-256.
#[verifier::external_body]
pub(crate) fn sha256(data: &[u8]) -> (res: Vec<u8>)
    ensures
        res@ == sha256_of(data@),
        res@.len() == 32,
{
    sha2::Sha256::digest(data).to_vec()
}

/// The lowercase hex digit for `n < 16`.
pub open spec fn hex_digit(n: nat) -> char {
    if n < 10 {
        ((n + 48) as u32) as char
    } else {
        ((n + 87) as u32) as char
    }
}

/// Two lowercase hex digits per byte, high nibble first.
pub open spec fn hex_lower(b: Seq<u8>) -> Seq<char>
    decreases b.len(),
{
    if b.len() == 0 {
        Seq::empty()
    } else {
        hex_lower(b.drop_last()) + seq![
            hex_digit((b.last() / 16) as nat),
            hex_digit((b.last() % 16) as nat),
        ]
    }
}

/// Calls `hex::encode`, which writes each byte as two lowercase hex digits
/// (the table `0123456789abcdef`, high nibble first).
#[verifier::external_body]
pub(crate) fn hex_encode(data: &[u8]) -> (res: String)
    ensures
        res@ == hex_lower(data@),
{
    hex::encode(data)
}

/// The SHA-256 digest of the UTF-8 bytes of `s`.
pub open spec fn text_digest(s: Seq<char>) -> Seq<u8> {
    sha256_of(vstd::utf8::encode_utf8(s))
}

/// The digest of `s`, as lowercase hex.
pub open spec fn text_digest_hex(s: Seq<char>) -> Seq<char> {
    hex_lower(text_digest(s))
}

/// The SHA-256 digest of the UTF-8 bytes of `s`.
pub fn digest_of_str(s: &str) -> (res: Vec<u8>)
    ensures
        res@ == text_digest(s@),
        res@.len() == 32,
{
    sha256(s.as_bytes())
}

/// The SHA-256 digest of the UTF-8 bytes of `s`, as lowercase hex.
pub fn digest_hex_of_str(s: &str) -> (res: String)
    ensures
        res@ == text_digest_hex(s@),
{
    let d = digest_of_str(s);
    hex_encode(d.as_slice())
}

/// Whether two byte strings are equal, comparing every byte.
pub fn bytes_equal(a: &Vec<u8>, b: &Vec<u8>) -> (res: bool)
    ensures
        res == (a@ == b@),
{
    if a.len() != b.len() {
        return false;
    }
    let mut same = true;
    for i in 0..a.len()
        invariant
            a.len() == b.len(),
            same == (forall|k: int| 0 <= k < i ==> a@[k] == b@[k]),
    {
        if a[i] != b[i] {
            same = false;
        }
    }
    if same {
        assert(a@ =~= b@);
    }
    same
}

} // verus!
