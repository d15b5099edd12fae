//! The advanced-cryptography demos: Bitcoin addresses, modular
//! exponentiation, RSA, BN254 point compression and Poseidon hashing, each
//! a sequence of host precompile calls; the data handed to the host and
//! the statuses made of its answers.

use vstd::prelude::*;
use crate::bytes::bytes_eq;

verus! {

/// The demos of the crypto contract.
#[derive(PartialEq, Eq, Structural)]
pub enum Demo {
    All,
    BitcoinAddress,
    RsaVerify,
    Modexp,
    Bn254Compression,
    PoseidonHash,
}

/// The demo an input asks for: by its first byte, all of them for an empty
/// input or an unknown byte.
pub open spec fn demo_of(input: Seq<u8>) -> Demo {
    if input.len() == 0 {
        Demo::All
    } else if input[0] == 1 {
        Demo::BitcoinAddress
    } else if input[0] == 2 {
        Demo::RsaVerify
    } else if input[0] == 3 {
        Demo::Modexp
    } else if input[0] == 4 {
        Demo::Bn254Compression
    } else if input[0] == 5 {
        Demo::PoseidonHash
    } else {
        Demo::All
    }
}

/// The demo an input asks for (the contract's entry point then runs it).
pub fn entrypoint(input: &[u8]) -> (r: Demo)
    ensures
        r == demo_of(input@),
{
    if input.len() == 0 {
        return Demo::All;
    }
    match input[0] {
        1 => Demo::BitcoinAddress,
        2 => Demo::RsaVerify,
        3 => Demo::Modexp,
        4 => Demo::Bn254Compression,
        5 => Demo::PoseidonHash,
        _ => Demo::All,
    }
}

/// All demos in turn: their host calls are made for what they log, and
/// the combined demo always succeeds.
pub fn demo_all() -> (r: u64)
    ensures
        r == 0,
{
    0
}

/// The Bitcoin address demo: its hashes are only logged.
pub fn demo_bitcoin_address() -> (r: u64)
    ensures
        r == 0,
{
    0
}

/// The RSA demo: its message hash is only logged.
pub fn demo_rsa_verify() -> (r: u64)
    ensures
        r == 0,
{
    0
}

/// The modular exponentiation input: the three lengths as 32-byte
/// big-endian numbers (1 each), then the base, the exponent and the
/// modulus.
pub open spec fn modexp_input(base: u8, exponent: u8, modulus: u8) -> Seq<u8> {
    Seq::new(99, |i: int|
        if i == 31 || i == 63 || i == 95 {
            1u8
        } else if i == 96 {
            base
        } else if i == 97 {
            exponent
        } else if i == 98 {
            modulus
        } else {
            0u8
        }
    )
}

/// The demo's input: `3^5 mod 7`.
pub fn modexp_demo_input() -> (r: [u8; 99])
    ensures
        r@ == modexp_input(3, 5, 7),
{
    let mut input = [0u8; 99];
    input[31] = 1;
    input[63] = 1;
    input[95] = 1;
    input[96] = 3;
    input[97] = 5;
    input[98] = 7;
    assert(input@ =~= modexp_input(3, 5, 7));
    input
}

/// The modular exponentiation demo's status: 0 when the host computed it
/// (answered 0), else 1.
pub fn demo_modexp(result: u64) -> (r: u64)
    ensures
        r == if result == 0 { 0u64 } else { 1u64 },
{
    if result == 0 {
        0
    } else {
        1
    }
}

/// The G1 point the compression demo round-trips: `x = 1`, `y = 2`, as
/// 32-byte big-endian numbers.
pub fn bn254_demo_point() -> (r: [u8; 64])
    ensures
        r@ == Seq::new(64, |i: int| if i == 31 { 1u8 } else if i == 63 { 2u8 } else { 0u8 }),
{
    let mut p = [0u8; 64];
    p[31] = 1;
    p[63] = 2;
    assert(p@ =~= Seq::new(64, |i: int| if i == 31 { 1u8 } else if i == 63 { 2u8 } else { 0u8 }));
    p
}

/// The G1 point the compression demo round-trips.
pub open spec fn demo_point() -> Seq<u8> {
    Seq::new(64, |i: int| if i == 31 { 1u8 } else if i == 63 { 2u8 } else { 0u8 })
}

/// The next step of the compression demo: a host call to make, or the
/// demo's status.
#[derive(Debug)]
pub enum Bn254Step {
    /// `bn254_g1_compress` of this 64-byte point (big-endian).
    Compress([u8; 64]),
    /// `bn254_g1_decompress` of these 33 compressed bytes (big-endian).
    Decompress([u8; 33]),
    /// The demo's status.
    Done(u64),
}

/// The compression demo, driven by the host's answers so far: first the
/// generator point is compressed; a failed compression answers 1; else the
/// compressed bytes the host wrote are decompressed; the status is 0 when
/// that succeeded and gave back the original point, else 1.  `compressed`
/// is the compression's status and output once made, `decompressed` the
/// decompression's.
pub fn demo_bn254_compression(compressed: Option<(u64, [u8; 33])>, decompressed: Option<(u64, [u8; 64])>) -> (r: Bn254Step)
    ensures
        match compressed {
            None => r matches Bn254Step::Compress(p) && p@ == demo_point(),
            Some((rc, c)) => if rc != 0 {
                r == Bn254Step::Done(1)
            } else {
                match decompressed {
                    None => r matches Bn254Step::Decompress(x) && x@ == c@,
                    Some((rd, p)) => r == Bn254Step::Done(
                        if rd == 0 && p@ == demo_point() { 0u64 } else { 1u64 },
                    ),
                }
            },
        },
{
    let point = bn254_demo_point();
    match compressed {
        None => Bn254Step::Compress(point),
        Some((rc, c)) => {
            if rc != 0 {
                return Bn254Step::Done(1);
            }
            match decompressed {
                None => Bn254Step::Decompress(c),
                Some((rd, p)) => {
                    if rd != 0 {
                        return Bn254Step::Done(1);
                    }
                    if bytes_eq(point.as_slice(), p.as_slice()) {
                        Bn254Step::Done(0)
                    } else {
                        Bn254Step::Done(1)
                    }
                },
            }
        },
    }
}

/// The inputs of the Poseidon demo's three hash calls: a single block of
/// ones; the Merkle pair of a block of ones and a block of twos; and the
/// nullifier pair of a secret of `0xAA` bytes and a zero index.
pub fn poseidon_demo_inputs() -> (r: Vec<Vec<[u8; 32]>>)
    ensures
        r@.len() == 3,
        r@[0]@.len() == 1 && r@[0]@[0]@ == Seq::new(32, |i: int| 1u8),
        r@[1]@.len() == 2 && r@[1]@[0]@ == Seq::new(32, |i: int| 1u8) && r@[1]@[1]@ == Seq::new(32, |i: int| 2u8),
        r@[2]@.len() == 2 && r@[2]@[0]@ == Seq::new(32, |i: int| 0xAAu8) && r@[2]@[1]@ == Seq::new(32, |i: int| 0u8),
{
    let ones = [1u8; 32];
    let twos = [2u8; 32];
    let secret = [0xAAu8; 32];
    let index = [0u8; 32];
    proof {
        assert(ones@ =~= Seq::new(32, |i: int| 1u8));
        assert(twos@ =~= Seq::new(32, |i: int| 2u8));
        assert(secret@ =~= Seq::new(32, |i: int| 0xAAu8));
        assert(index@ =~= Seq::new(32, |i: int| 0u8));
    }
    vec![vec![ones], vec![ones, twos], vec![secret, index]]
}

/// The inputs of the Poseidon demo's hash call number `k` (from 0).
pub open spec fn poseidon_input(k: int) -> Seq<Seq<u8>> {
    if k == 0 {
        seq![Seq::new(32, |i: int| 1u8)]
    } else if k == 1 {
        seq![Seq::new(32, |i: int| 1u8), Seq::new(32, |i: int| 2u8)]
    } else {
        seq![Seq::new(32, |i: int| 0xAAu8), Seq::new(32, |i: int| 0u8)]
    }
}

/// The next step of the Poseidon demo: a host call to make, or the demo's
/// status.
#[derive(Debug)]
pub enum PoseidonStep {
    /// `poseidon(parameters, endianness, inputs)`.
    Hash(u64, u64, Vec<[u8; 32]>),
    /// The demo's status.
    Done(u64),
}

/// The statuses the hash calls answered so far, up to the first failure:
/// some call failed.
pub open spec fn some_failed(answers: Seq<u64>) -> bool {
    exists|i: int| 0 <= i < answers.len() && #[trigger] answers[i] != 0
}

/// The Poseidon demo, driven by the statuses its hash calls answered so
/// far: the three hashes are asked for in turn (parameters 0 for BN254 x5,
/// endianness 0 for big-endian), each once the previous succeeded; a failed
/// call ends the demo with 1, and three successes with 0.
pub fn demo_poseidon_hash(answers: &[u64]) -> (r: PoseidonStep)
    ensures
        some_failed(answers@) ==> r == PoseidonStep::Done(1),
        !some_failed(answers@) && answers@.len() >= 3 ==> r == PoseidonStep::Done(0),
        !some_failed(answers@) && answers@.len() < 3 ==> (r matches PoseidonStep::Hash(params, endian, ins)
            && params == 0 && endian == 0 && ins@.map_values(|a: [u8; 32]| a@) == poseidon_input(
            answers@.len() as int,
        )),
{
    let mut i: usize = 0;
    while i < answers.len()
        invariant
            i <= answers@.len(),
            forall|j: int| 0 <= j < i ==> #[trigger] answers@[j] == 0,
        decreases answers@.len() - i,
    {
        if answers[i] != 0 {
            return PoseidonStep::Done(1);
        }
        i = i + 1;
    }
    assert(!some_failed(answers@));
    if answers.len() >= 3 {
        return PoseidonStep::Done(0);
    }
    let calls = poseidon_demo_inputs();
    let k = answers.len();
    let ins = if k == 0 {
        vec![calls[0][0]]
    } else if k == 1 {
        vec![calls[1][0], calls[1][1]]
    } else {
        vec![calls[2][0], calls[2][1]]
    };
    proof {
        assert(ins@.map_values(|a: [u8; 32]| a@) =~= poseidon_input(k as int));
    }
    PoseidonStep::Hash(0, 0, ins)
}

} // verus!
