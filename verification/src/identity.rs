//! The identity of a patched function.
//!
//! Two builds of a library know a function as the same one when its identity
//! hash is the same in both: a 128-bit XXH3 digest of the text of the
//! function's signature and of its qualified name. Each of the two goes into
//! the digest behind its length, so that no part of one can pass for a part
//! of the other.

use vstd::prelude::*;
use vstd::bytes::{spec_u64_to_le_bytes, u64_to_le_bytes};
use vstd::string::StringSliceAdditionalSpecFns;

verus! {

/// The 128-bit XXH3 digest, with the default seed and secret, of `input`.
pub uninterp spec fn xxh3_128_of(input: Seq<u8>) -> u128;

/// The 64-bit XXH3 digest, with the default seed and secret, of `input`.
pub uninterp spec fn xxh3_64_of(input: Seq<u8>) -> u64;

/// `xxh3_128` of `xxhash_rust` computes the 128-bit digest of `input`: its
/// result depends on the bytes of `input` and on nothing else.
pub assume_specification[ xxhash_rust::xxh3::xxh3_128 ](input: &[u8]) -> (digest: u128)
    ensures
        digest == xxh3_128_of(input@),
;

/// `xxh3_64` of `xxhash_rust` computes the 64-bit digest of `input`: its
/// result depends on the bytes of `input` and on nothing else.
pub assume_specification[ xxhash_rust::xxh3::xxh3_64 ](input: &[u8]) -> (digest: u64)
    ensures
        digest == xxh3_64_of(input@),
;

/// What goes into the digest for one part of an identity: the length of
/// `part` as eight little-endian bytes, then `part` itself.
pub open spec fn prefixed(part: Seq<u8>) -> Seq<u8> {
    spec_u64_to_le_bytes(part.len() as u64) + part
}

/// The identity hash of the function with the given signature text and
/// qualified name.
pub open spec fn identity_hash(signature: Seq<u8>, name: Seq<u8>) -> u128 {
    xxh3_128_of(prefixed(signature) + prefixed(name))
}

/// Puts `part` behind what `input` holds, behind its length.
fn feed(input: &mut Vec<u8>, part: &[u8])
    ensures
        final(input)@ == old(input)@ + prefixed(part@),
{
    let mut len: Vec<u8> = u64_to_le_bytes(part.len() as u64);
    input.append(&mut len);
    let mut k: usize = 0;
    while k < part.len()
        invariant
            k <= part@.len(),
            input@ == old(input)@ + spec_u64_to_le_bytes(part@.len() as u64) + part@.take(k as int),
        decreases part@.len() - k,
    {
        input.push(part[k]);
        k = k + 1;
        assert(part@.take(k as int) =~= part@.take(k - 1).push(part@[k - 1]));
    }
    assert(part@.take(k as int) =~= part@);
}

/// The identity of a function: its identity hash and its qualified name.
pub fn identity<'a>(signature: &[u8], name: &'a str) -> (id: (u128, &'a str))
    ensures
        id.0 == identity_hash(signature@, name.spec_bytes()),
        id.1@ == name@,
{
    let mut input: Vec<u8> = Vec::new();
    feed(&mut input, signature);
    feed(&mut input, name.as_bytes());
    assert(input@ =~= prefixed(signature@) + prefixed(name.spec_bytes()));
    (xxhash_rust::xxh3::xxh3_128(input.as_slice()), name)
}

/// The hash by which the watcher tells one build of the library file from
/// another: the 64-bit XXH3 digest of the file's bytes.
pub fn content_hash(bytes: &[u8]) -> (hash: u64)
    ensures
        hash == xxh3_64_of(bytes@),
{
    xxhash_rust::xxh3::xxh3_64(bytes)
}

} // verus!
