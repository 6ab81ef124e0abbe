//! Project-scoped API keys: `tk_` followed by 64 hex digits, handed out once
//! and stored only as their SHA-256 hash.
use vstd::prelude::*;
use rand::Rng;
use crate::dashboard::middleware::{api_key_prefix, api_token_of};
use crate::digest::{hex_digit, hex_encode, hex_lower, text_digest_hex, digest_hex_of_str};
use crate::protocol::bearer_prefix;
use crate::text::{all_ascii, chars_of, concat, slice_chars, string_of};

verus! {

/// The project every key belongs to in this build:
/// `00000000-0000-0000-0000-000000000001`.
pub const DEFAULT_PROJECT_ID: u128 = 1;

#[derive(Debug, Clone)]
pub struct CreateApiKeyRequest {
    pub name: String,
}

/// The answer to creating a key; the full key is shown only here.
#[derive(Debug, Clone)]
pub struct CreateApiKeyResponse {
    pub id: u128,
    pub name: String,
    pub key_prefix: String,
    pub key_suffix: String,
    pub key: String,
    pub created_at: String,
}

/// Calls `rand::thread_rng().gen()` for 32 random bytes.  Nothing is
/// claimed of them.
#[verifier::external_body]
fn random_key_bytes() -> (res: [u8; 32]) {
    rand::thread_rng().gen()
}

/// The key text made of given bytes.
pub open spec fn api_key_text(b: Seq<u8>) -> Seq<char> {
    api_key_prefix() + hex_lower(b)
}

/// A new key: `tk_` and the hex of 32 random bytes.
pub fn generate_api_key() -> (res: String)
    ensures
        exists|b: Seq<u8>| b.len() == 32 && res@ == api_key_text(b),
{
    let bytes = random_key_bytes();
    api_key_of(&bytes)
}

/// The key made of 32 drawn bytes: `tk_` and the bytes in lowercase hex.
pub fn api_key_of(bytes: &[u8; 32]) -> (res: String)
    ensures
        res@ == api_key_text(bytes@),
{
    let hex = hex_encode(bytes);
    let p = vec!['t', 'k', '_'];
    assert(p@ == api_key_prefix());
    let key = concat(&p, &chars_of(hex.as_str()));
    string_of(&key)
}

/// The hash a key is stored under: SHA-256, in lowercase hex.
pub fn hash_key(key: &str) -> (res: String)
    ensures
        res@ == text_digest_hex(key@),
{
    digest_hex_of_str(key)
}

/// The parts of a key shown in listings: its first 11 characters (`tk_` and
/// 8 hex digits) and its last 4.
pub fn key_display_parts(key: &str) -> (res: (String, String))
    requires
        key@.len() >= 11,
        all_ascii(key@),
    ensures
        res.0@ == key@.take(11),
        res.1@ == key@.skip(key@.len() - 4),
{
    let v = chars_of(key);
    let pre = slice_chars(&v, 0, 11);
    let suf = slice_chars(&v, v.len() - 4, v.len());
    assert(pre@ == v@.take(11));
    assert(suf@ == v@.skip(v@.len() - 4));
    (string_of(&pre), string_of(&suf))
}

/// The hex of `n` bytes is `2n` ASCII characters.
pub proof fn lemma_hex_lower_shape(b: Seq<u8>)
    ensures
        hex_lower(b).len() == 2 * b.len(),
        all_ascii(hex_lower(b)),
    decreases b.len(),
{
    if b.len() > 0 {
        lemma_hex_lower_shape(b.drop_last());
        let h = hex_lower(b);
        let prev = hex_lower(b.drop_last());
        let hi = (b.last() / 16) as nat;
        let lo = (b.last() % 16) as nat;
        assert(h == prev + seq![hex_digit(hi), hex_digit(lo)]);
        assert forall|i: int| 0 <= i < h.len() implies crate::text::is_ascii_char(#[trigger] h[i]) by {
            if i >= prev.len() {
                assert(h[i] == hex_digit(hi) || h[i] == hex_digit(lo));
            } else {
                assert(h[i] == prev[i]);
            }
        }
    }
}

/// Every key handed out is 67 ASCII characters, so its display parts can
/// be taken, and a request that presents it as a bearer token is
/// recognised as an API-key request.
pub proof fn lemma_generated_key_usable(b: Seq<u8>)
    requires
        b.len() == 32,
    ensures
        api_key_text(b).len() == 67,
        all_ascii(api_key_text(b)),
        api_token_of(Some(bearer_prefix() + api_key_text(b))) == Some(api_key_text(b)),
{
    lemma_hex_lower_shape(b);
    let k = api_key_text(b);
    assert forall|i: int| 0 <= i < k.len() implies crate::text::is_ascii_char(#[trigger] k[i]) by {
        if i >= 3 {
            assert(k[i] == hex_lower(b)[i - 3]);
        }
    }
    let h = bearer_prefix() + k;
    assert(h.take(7) =~= bearer_prefix());
    assert(h.skip(7) =~= k);
    assert(k.take(3) =~= api_key_prefix());
}

} // verus!
