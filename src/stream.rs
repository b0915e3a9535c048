//! Deterministic filler bytes derived from a one-byte seed.
use vstd::prelude::*;

verus! {

/// Length in bytes of a SHA-256 digest.
pub const DIGEST_LEN: usize = 32;

/// The SHA-256 digest of `data`.
pub uninterp spec fn sha256_of(data: Seq<u8>) -> Seq<u8>;

/// Relies on `sha2::Sha256::digest`: a 32-byte digest (its output type is
/// `GenericArray<u8, U32>`) that depends on the input bytes alone.
#[verifier::external_body]
fn sha256(data: &[u8]) -> (r: Vec<u8>)
    ensures
        r@ == sha256_of(data@),
        r@.len() == DIGEST_LEN,
{
    <sha2::Sha256 as sha2::Digest>::digest(data).to_vec()
}

/// The digest of the single byte `seed`.
pub open spec fn seed_digest(seed: u8) -> Seq<u8> {
    sha256_of(seq![seed])
}

/// The first `len` bytes of the digest of `seed` repeated without end.
pub open spec fn random_stream(seed: u8, len: nat) -> Seq<u8> {
    Seq::new(len, |i: int| seed_digest(seed)[i % (DIGEST_LEN as int)])
}

/// Returns `len` bytes: the SHA-256 digest of the one-byte `start`, repeated
/// and cut to length. The same digest is recomputed for every block, so the
/// output depends on `(start, len)` alone.
pub fn random(start: u8, len: usize) -> (r: Vec<u8>)
    ensures
        r@ == random_stream(start, len as nat),
{
    let mut out: Vec<u8> = Vec::new();
    let seed: Vec<u8> = vec![start];
    while out.len() < len
        invariant
            seed@ == seq![start],
            out@.len() <= len,
            out@.len() % (DIGEST_LEN as nat) == 0 || out@.len() == len,
            forall|i: int| 0 <= i < out@.len() ==> out@[i] == seed_digest(start)[i % (DIGEST_LEN as int)],
        decreases len - out@.len(),
    {
        let digest = sha256(seed.as_slice());
        let take: usize = if len - out.len() < DIGEST_LEN { len - out.len() } else { DIGEST_LEN };
        let base: usize = out.len();
        let mut k: usize = 0;
        while k < take
            invariant
                digest@ == seed_digest(start),
                digest@.len() == DIGEST_LEN,
                take <= DIGEST_LEN,
                base % DIGEST_LEN == 0,
                base + take <= len,
                k <= take,
                out@.len() == base + k,
                forall|i: int| 0 <= i < out@.len() ==> out@[i] == seed_digest(start)[i % (DIGEST_LEN as int)],
            decreases take - k,
        {
            proof {
                assert((base + k) % (DIGEST_LEN as int) == k as int) by (nonlinear_arith)
                    requires base % 32 == 0, k < 32, DIGEST_LEN == 32;
            }
            out.push(digest[k]);
            k = k + 1;
        }
        proof {
            assert(out@.len() % (DIGEST_LEN as nat) == 0 || out@.len() == len) by (nonlinear_arith)
                requires out@.len() == base + take, base % 32 == 0,
                    take == 32 || base + take == len, DIGEST_LEN == 32;
        }
    }
    proof {
        assert(out@ =~= random_stream(start, len as nat));
    }
    out
}

/// For a fixed seed, a shorter stream is a prefix of a longer one.
pub proof fn lemma_random_prefix(seed: u8, n1: nat, n2: nat)
    requires
        n1 <= n2,
    ensures
        random_stream(seed, n1) == random_stream(seed, n2).take(n1 as int),
{
    assert(random_stream(seed, n1) =~= random_stream(seed, n2).take(n1 as int));
}

} // verus!
