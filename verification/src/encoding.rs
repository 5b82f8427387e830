//! The byte strings that are hashed: the seed material of a phase and the
//! opening of a commitment. Both are twelve bytes of big-endian integers.

use vstd::prelude::*;

use crate::host::{host_keccak256, host_sha256, keccak256_digest, sha256_digest};

verus! {

/// The four bytes of `x`, most significant first.
pub open spec fn be32(x: u32) -> Seq<u8> {
    seq![
        (x / 0x100_0000) as u8,
        ((x / 0x1_0000) % 0x100) as u8,
        ((x / 0x100) % 0x100) as u8,
        (x % 0x100) as u8,
    ]
}

/// The eight bytes of `x`, most significant first.
pub open spec fn be64(x: u64) -> Seq<u8> {
    be32((x / 0x1_0000_0000) as u32) + be32((x % 0x1_0000_0000) as u32)
}

/// What is hashed into the generator's seed: session, day and phase.
pub open spec fn seed_preimage(session_id: u32, day: u32, phase: u32) -> Seq<u8> {
    be32(session_id) + be32(day) + be32(phase)
}

/// What is hashed into a commitment: the target and the nonce.
pub open spec fn commit_preimage(target: u32, nonce: u64) -> Seq<u8> {
    be32(target) + be64(nonce)
}

/// The seed of the generator for a phase of a session.
pub open spec fn phase_seed_of(session_id: u32, day: u32, phase: u32) -> Seq<u8> {
    keccak256_digest(seed_preimage(session_id, day, phase))
}

/// The commitment that opens to `target` and `nonce`.
pub open spec fn commitment_of(target: u32, nonce: u64) -> Seq<u8> {
    sha256_digest(commit_preimage(target, nonce))
}

/// Distinct numbers have distinct encodings.
pub proof fn lemma_be32_injective(x: u32, y: u32)
    requires
        be32(x) == be32(y),
    ensures
        x == y,
{
    assert(be32(x)[0] == be32(y)[0]);
    assert(be32(x)[1] == be32(y)[1]);
    assert(be32(x)[2] == be32(y)[2]);
    assert(be32(x)[3] == be32(y)[3]);
}

/// Distinct numbers have distinct encodings.
pub proof fn lemma_be64_injective(x: u64, y: u64)
    requires
        be64(x) == be64(y),
    ensures
        x == y,
{
    let xh = (x / 0x1_0000_0000) as u32;
    let xl = (x % 0x1_0000_0000) as u32;
    let yh = (y / 0x1_0000_0000) as u32;
    let yl = (y % 0x1_0000_0000) as u32;
    assert(be32(xh) =~= be64(x).subrange(0, 4));
    assert(be32(yh) =~= be64(y).subrange(0, 4));
    assert(be32(xl) =~= be64(x).subrange(4, 8));
    assert(be32(yl) =~= be64(y).subrange(4, 8));
    lemma_be32_injective(xh, yh);
    lemma_be32_injective(xl, yl);
}

/// Writes `x` into `out[at..at + 4]`, most significant byte first.
fn put_be32(out: &mut [u8; 12], at: usize, x: u32)
    requires
        at + 4 <= 12,
    ensures
        final(out)@ == old(out)@.subrange(0, at as int) + be32(x) + old(out)@.subrange(
            at + 4,
            12,
        ),
{
    out[at] = (x / 0x100_0000) as u8;
    out[at + 1] = ((x / 0x1_0000) % 0x100) as u8;
    out[at + 2] = ((x / 0x100) % 0x100) as u8;
    out[at + 3] = (x % 0x100) as u8;
    assert(out@ =~= old(out)@.subrange(0, at as int) + be32(x) + old(out)@.subrange(at + 4, 12));
}

/// The twelve bytes of the seed material.
pub fn seed_bytes(session_id: u32, day: u32, phase: u32) -> (out: [u8; 12])
    ensures
        out@ == seed_preimage(session_id, day, phase),
{
    let mut out: [u8; 12] = [0u8;12];
    put_be32(&mut out, 0, session_id);
    put_be32(&mut out, 4, day);
    put_be32(&mut out, 8, phase);
    assert(out@ =~= seed_preimage(session_id, day, phase));
    out
}

/// The twelve bytes that a commitment is the digest of.
pub fn commit_bytes(target: u32, nonce: u64) -> (out: [u8; 12])
    ensures
        out@ == commit_preimage(target, nonce),
{
    let mut out: [u8; 12] = [0u8;12];
    put_be32(&mut out, 0, target);
    put_be32(&mut out, 4, (nonce / 0x1_0000_0000) as u32);
    put_be32(&mut out, 8, (nonce % 0x1_0000_0000) as u32);
    assert(out@ =~= commit_preimage(target, nonce));
    out
}

/// The seed with which the generator is seeded for a phase: the Keccak-256
/// digest of session, day and phase.
pub fn phase_seed(env: &soroban_sdk::Env, session_id: u32, day: u32, phase: u32) -> (seed: [u8; 32])
    ensures
        seed@ == phase_seed_of(session_id, day, phase),
{
    let material: [u8; 12] = seed_bytes(session_id, day, phase);
    host_keccak256(env, &material)
}

/// The commitment to a target under a nonce: the SHA-256 digest of both.
pub fn compute_commitment(env: &soroban_sdk::Env, target: u32, nonce: u64) -> (digest: [u8; 32])
    ensures
        digest@ == commitment_of(target, nonce),
{
    let opening: [u8; 12] = commit_bytes(target, nonce);
    host_sha256(env, &opening)
}

} // verus!
