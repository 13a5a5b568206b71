//! Keccak-256, and the two things the contracts derive from it: the four-byte
//! selector of a signature and the slot of a mapping entry.

use vstd::prelude::*;
use crate::primitives::U256;

verus! {

/// The Keccak-256 digest of `data`: 32 bytes.
pub uninterp spec fn keccak256_digest(data: Seq<u8>) -> Seq<u8>;

/// Hashes with `alloy::primitives::keccak256`. Claimed of it: the 32 bytes it
/// returns are the Keccak-256 digest of the input, and of the input alone.
#[verifier::external_body]
fn keccak256_call(data: &[u8]) -> (r: U256)
    ensures
        r@ == keccak256_digest(data@),
{
    U256 { bytes: alloy::primitives::keccak256(data).0 }
}

/// The Keccak-256 digest of `data`, as a word.
pub fn keccak256(data: &[u8]) -> (r: U256)
    ensures
        r@ == keccak256_digest(data@),
{
    keccak256_call(data)
}

/// The first four bytes of a digest.
pub open spec fn selector_bytes(digest: Seq<u8>) -> Seq<u8> {
    digest.subrange(0, 4)
}

/// Takes the selector out of the digest of a signature.
pub fn selector_from_digest(digest: &U256) -> (r: [u8; 4])
    ensures
        r@ == selector_bytes(digest@),
{
    let r: [u8; 4] = [digest.bytes[0], digest.bytes[1], digest.bytes[2], digest.bytes[3]];
    assert(r@ =~= selector_bytes(digest@));
    r
}

/// The selector of a canonical signature such as `transfer(address,uint256)`.
pub fn selector(signature: &str) -> (r: [u8; 4])
    ensures
        r@ == text_selector(signature@),
{
    let digest = keccak256(signature.as_bytes());
    selector_from_digest(&digest)
}

/// The Keccak-256 digest of a text, taken over its UTF-8 bytes.
pub open spec fn text_digest(text: Seq<char>) -> Seq<u8> {
    keccak256_digest(vstd::utf8::encode_utf8(text))
}

/// The selector that belongs to the canonical signature `text`.
pub open spec fn text_selector(text: Seq<char>) -> Seq<u8> {
    selector_bytes(text_digest(text))
}

/// The Keccak-256 digest of a text, as a word.
pub fn digest_of_text(text: &str) -> (r: U256)
    ensures
        r@ == text_digest(text@),
{
    keccak256(text.as_bytes())
}

/// The bytes that are hashed for the entry `key` of the mapping at `base`:
/// the key, then the base slot.
pub open spec fn mapping_preimage(key: Seq<u8>, base: Seq<u8>) -> Seq<u8> {
    key + base
}

/// The slot of the entry `key` of the mapping at `base`.
pub open spec fn mapping_slot(key: Seq<u8>, base: Seq<u8>) -> Seq<u8> {
    keccak256_digest(mapping_preimage(key, base))
}

/// The slot of the entry `(key1, key2)` of the nested mapping at `base`.
pub open spec fn nested_mapping_slot(key1: Seq<u8>, key2: Seq<u8>, base: Seq<u8>) -> Seq<u8> {
    mapping_slot(key2, mapping_slot(key1, base))
}

/// Builds the 64 bytes that are hashed for a mapping entry.
pub fn build_mapping_preimage(key: &U256, base: &U256) -> (r: Vec<u8>)
    ensures
        r@ == mapping_preimage(key@, base@),
{
    let mut r: Vec<u8> = Vec::new();
    let mut i: usize = 0;
    while i < 32
        invariant
            i <= 32,
            r@ == key@.subrange(0, i as int),
        decreases 32 - i,
    {
        r.push(key.bytes[i]);
        assert(r@ =~= key@.subrange(0, i + 1));
        i = i + 1;
    }
    assert(r@ =~= key@);
    i = 0;
    while i < 32
        invariant
            i <= 32,
            r@ == key@ + base@.subrange(0, i as int),
        decreases 32 - i,
    {
        r.push(base.bytes[i]);
        assert(r@ =~= key@ + base@.subrange(0, i + 1));
        i = i + 1;
    }
    assert(r@ =~= key@ + base@);
    r
}

/// Derives the slot of the entry `key` of the mapping at `base`.
pub fn derive_mapping_slot(key: &U256, base: &U256) -> (r: U256)
    ensures
        r@ == mapping_slot(key@, base@),
{
    let preimage = build_mapping_preimage(key, base);
    keccak256(preimage.as_slice())
}

} // verus!
