//! Content hashing of byte buffers.

use vstd::prelude::*;

verus! {

/// The value that `FxHasher64` yields after being fed `bytes` with one `write` call.
pub uninterp spec fn fx_hash_of(bytes: Seq<u8>) -> u64;

/// Relies on `fxhash::FxHasher64` (`Default`, `Hasher::write`, `Hasher::finish`):
/// a fixed-seed hasher whose result depends on the bytes written alone.
#[verifier::external_body]
pub(crate) fn fx_hash_bytes(bytes: &[u8]) -> (r: u64)
    ensures
        r == fx_hash_of(bytes@),
{
    let mut hasher = fxhash::FxHasher64::default();
    std::hash::Hasher::write(&mut hasher, bytes);
    std::hash::Hasher::finish(&hasher)
}

/// Order-dependent combination of two hashes.
pub open spec fn combine_spec(lhs: u64, rhs: u64) -> u64 {
    let sum = vstd::wrapping::u64_specs::wrapping_add(
        vstd::wrapping::u64_specs::wrapping_add(
            vstd::wrapping::u64_specs::wrapping_add(rhs, 0x9e3779b9u64),
            lhs << 6u64,
        ),
        lhs >> 2u64,
    );
    lhs ^ sum
}

/// Combines two hashes into one; the order of the arguments matters.
pub fn hash_combine(lhs: u64, rhs: u64) -> (r: u64)
    ensures
        r == combine_spec(lhs, rhs),
{
    let sum = rhs.wrapping_add(0x9e3779b9u64).wrapping_add(lhs << 6u64).wrapping_add(lhs >> 2u64);
    lhs ^ sum
}

} // verus!

verus! {

/// The multiplier of the Fx hash.
pub const FX_SEED: u64 = 0x517c_c1b7_2722_0a95;

/// One step of the Fx hash: the state rotated left by five bits, mixed with
/// `word`, times the multiplier (wrapping).
pub open spec fn fx_step(hash: u64, word: u64) -> u64 {
    vstd::wrapping::u64_specs::wrapping_mul(((hash << 5u64) | (hash >> 59u64)) ^ word, FX_SEED)
}

/// The value that `FxHasher64` yields after being fed `a`, then `b`, with `write_u64`.
pub open spec fn fx_hash_pair_spec(a: u64, b: u64) -> u64 {
    fx_step(fx_step(0, a), b)
}

/// Relies on `fxhash::FxHasher64` (`Default`, `Hasher::write_u64`, `Hasher::finish`):
/// the state starts at zero and each `write_u64` is one step of the Fx hash.
#[verifier::external_body]
fn fx_hash_pair(a: u64, b: u64) -> (r: u64)
    ensures
        r == fx_hash_pair_spec(a, b),
{
    let mut hasher = fxhash::FxHasher64::default();
    std::hash::Hasher::write_u64(&mut hasher, a);
    std::hash::Hasher::write_u64(&mut hasher, b);
    std::hash::Hasher::finish(&hasher)
}

/// The batch key of a surface drawn with material `material_id` from the shared
/// data whose key is `data_key`: surfaces with equal keys of both can be drawn
/// in one batch.
pub fn batch_id(material_id: u64, data_key: u64) -> (r: u64)
    ensures
        r == fx_hash_pair_spec(material_id, data_key),
{
    fx_hash_pair(material_id, data_key)
}

} // verus!
