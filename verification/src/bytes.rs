//! Little-endian integer encoding and small byte-string helpers shared by
//! every contract in the crate.

use vstd::prelude::*;

verus! {

/// `256^n`.
pub open spec fn pow256(n: nat) -> nat
    decreases n,
{
    if n == 0 {
        1
    } else {
        256 * pow256((n - 1) as nat)
    }
}

/// The number that the byte string `s` denotes when read little-endian.
pub open spec fn le_nat(s: Seq<u8>) -> nat
    decreases s.len(),
{
    if s.len() == 0 {
        0
    } else {
        s[0] as nat + 256 * le_nat(s.drop_first())
    }
}

/// The `n` lowest little-endian bytes of `x` (what `to_le_bytes` gives for an
/// `n`-byte integer type).
pub open spec fn le_bytes(x: nat, n: nat) -> Seq<u8>
    decreases n,
{
    if n == 0 {
        Seq::empty()
    } else {
        seq![(x % 256) as u8] + le_bytes(x / 256, (n - 1) as nat)
    }
}

pub proof fn lemma_pow256_pos(n: nat)
    ensures
        pow256(n) >= 1,
    decreases n,
{
    if n > 0 {
        lemma_pow256_pos((n - 1) as nat);
    }
}

pub proof fn lemma_pow256_mono(a: nat, b: nat)
    requires
        a <= b,
    ensures
        pow256(a) <= pow256(b),
    decreases b,
{
    if a < b {
        lemma_pow256_mono(a, (b - 1) as nat);
        lemma_pow256_pos((b - 1) as nat);
    }
}

pub proof fn lemma_pow256_values()
    ensures
        pow256(1) == 0x100,
        pow256(2) == 0x10000,
        pow256(4) == 0x1_0000_0000,
        pow256(8) == 0x1_0000_0000_0000_0000,
        pow256(15) == 0x1_0000_0000_0000_0000_0000_0000_0000_00,
        pow256(16) == 0x1_0000_0000_0000_0000_0000_0000_0000_0000,
{
    reveal_with_fuel(pow256, 17);
}

pub proof fn lemma_le_bytes_len(x: nat, n: nat)
    ensures
        le_bytes(x, n).len() == n,
    decreases n,
{
    if n > 0 {
        lemma_le_bytes_len(x / 256, (n - 1) as nat);
    }
}

pub proof fn lemma_le_nat_bound(s: Seq<u8>)
    ensures
        le_nat(s) < pow256(s.len()),
    decreases s.len(),
{
    if s.len() > 0 {
        let t = s.drop_first();
        lemma_le_nat_bound(t);
        let a = s[0] as nat;
        let b = le_nat(t);
        let p = pow256(t.len());
        assert(a + 256 * b < 256 * p) by (nonlinear_arith)
            requires
                a < 256,
                b < p,
        ;
    }
}

/// Decoding what was encoded gives the number back, when it fits.
pub proof fn lemma_le_roundtrip(x: nat, n: nat)
    requires
        x < pow256(n),
    ensures
        le_nat(le_bytes(x, n)) == x,
    decreases n,
{
    if n > 0 {
        let q = x / 256;
        let p = pow256((n - 1) as nat);
        assert(q < p) by (nonlinear_arith)
            requires
                x < 256 * p,
                q == x / 256,
        ;
        lemma_le_roundtrip(q, (n - 1) as nat);
        let s = le_bytes(x, n);
        assert(s.drop_first() =~= le_bytes(q, (n - 1) as nat));
        assert(x == x % 256 + 256 * q);
    }
}

/// The encoding is injective on numbers that fit.
pub proof fn lemma_le_bytes_injective(x: nat, y: nat, n: nat)
    requires
        x < pow256(n),
        y < pow256(n),
        le_bytes(x, n) == le_bytes(y, n),
    ensures
        x == y,
{
    lemma_le_roundtrip(x, n);
    lemma_le_roundtrip(y, n);
}

/// Reading back the `n`-byte encoding of a value below `256^n` gives it.
pub proof fn lemma_le_bytes_prefix(x: nat, n: nat, m: nat)
    requires
        m <= n,
    ensures
        le_bytes(x, n).take(m as int) == le_bytes(x, m),
    decreases m,
{
    lemma_le_bytes_len(x, n);
    lemma_le_bytes_len(x, m);
    if m > 0 {
        lemma_le_bytes_prefix(x / 256, (n - 1) as nat, (m - 1) as nat);
        assert(le_bytes(x, n).take(m as int) =~= seq![(x % 256) as u8] + le_bytes(
            x / 256,
            (n - 1) as nat,
        ).take(m - 1));
    } else {
        assert(le_bytes(x, n).take(0) =~= Seq::<u8>::empty());
    }
}

/// `n` little-endian bytes of `x`.
pub fn le_encode(x: u128, n: usize) -> (r: Vec<u8>)
    ensures
        r@ == le_bytes(x as nat, n as nat),
{
    let mut r: Vec<u8> = Vec::new();
    let mut v: u128 = x;
    let mut i: usize = 0;
    while i < n
        invariant
            i <= n,
            r@ + le_bytes(v as nat, (n - i) as nat) == le_bytes(x as nat, n as nat),
        decreases n - i,
    {
        let b: u8 = (v % 256) as u8;
        proof {
            let k = (n - i) as nat;
            assert(le_bytes(v as nat, k) == seq![b] + le_bytes((v / 256) as nat, (k - 1) as nat));
            assert(r@.push(b) + le_bytes((v / 256) as nat, (k - 1) as nat) =~= r@ + le_bytes(
                v as nat,
                k,
            ));
        }
        r.push(b);
        v = v / 256;
        i = i + 1;
    }
    proof {
        assert(r@ + le_bytes(v as nat, 0) =~= r@);
    }
    r
}

/// Reads `n <= 16` bytes at `start` as a little-endian number.
pub fn le_decode(s: &[u8], start: usize, n: usize) -> (r: u128)
    requires
        n <= 16,
        start + n <= s@.len(),
    ensures
        r as nat == le_nat(s@.subrange(start as int, start + n)),
{
    let len = s.len();
    let mut acc: u128 = 0;
    let mut i: usize = n;
    proof {
        assert(s@.subrange(start + n, start + n) =~= Seq::<u8>::empty());
    }
    while i > 0
        invariant
            i <= n <= 16,
            start + n <= s@.len(),
            len == s@.len(),
            acc as nat == le_nat(s@.subrange(start + i, start + n)),
        decreases i,
    {
        let ghost t = s@.subrange(start + i, start + n);
        proof {
            lemma_le_nat_bound(t);
            lemma_pow256_mono(t.len(), 15);
            lemma_pow256_values();
        }
        let b = s[start + i - 1];
        proof {
            let u = s@.subrange(start + i - 1, start + n);
            assert(u.drop_first() =~= t);
            assert(u[0] == b);
        }
        acc = acc * 256 + (b as u128);
        i = i - 1;
    }
    acc
}

/// Little-endian bytes of a `u128` (`to_le_bytes`).
pub fn u128_le(x: u128) -> (r: Vec<u8>)
    ensures
        r@ == le_bytes(x as nat, 16),
        r@.len() == 16,
{
    proof {
        lemma_le_bytes_len(x as nat, 16);
    }
    le_encode(x, 16)
}

/// Little-endian bytes of a `u64` (`to_le_bytes`).
pub fn u64_le(x: u64) -> (r: Vec<u8>)
    ensures
        r@ == le_bytes(x as nat, 8),
        r@.len() == 8,
{
    proof {
        lemma_le_bytes_len(x as nat, 8);
    }
    le_encode(x as u128, 8)
}

/// Reads a little-endian `u128` at `start` (`u128::from_le_bytes`).
pub fn read_u128_at(s: &[u8], start: usize) -> (r: u128)
    requires
        start + 16 <= s@.len(),
    ensures
        r as nat == le_nat(s@.subrange(start as int, start + 16)),
{
    le_decode(s, start, 16)
}

/// Reads a little-endian `u64` at `start` (`u64::from_le_bytes`).
pub fn read_u64_at(s: &[u8], start: usize) -> (r: u64)
    requires
        start + 8 <= s@.len(),
    ensures
        r as nat == le_nat(s@.subrange(start as int, start + 8)),
{
    let v = le_decode(s, start, 8);
    proof {
        lemma_le_nat_bound(s@.subrange(start as int, start + 8));
        lemma_pow256_values();
    }
    v as u64
}

/// Reads a little-endian `u32` at `start` (`u32::from_le_bytes`).
pub fn read_u32_at(s: &[u8], start: usize) -> (r: u32)
    requires
        start + 4 <= s@.len(),
    ensures
        r as nat == le_nat(s@.subrange(start as int, start + 4)),
{
    let v = le_decode(s, start, 4);
    proof {
        lemma_le_nat_bound(s@.subrange(start as int, start + 4));
        lemma_pow256_values();
    }
    v as u32
}

/// Reads a little-endian `u16` at `start` (`u16::from_le_bytes`).
pub fn read_u16_at(s: &[u8], start: usize) -> (r: u16)
    requires
        start + 2 <= s@.len(),
    ensures
        r as nat == le_nat(s@.subrange(start as int, start + 2)),
{
    let v = le_decode(s, start, 2);
    proof {
        lemma_le_nat_bound(s@.subrange(start as int, start + 2));
        lemma_pow256_values();
    }
    v as u16
}

/// Whether every byte of `s` is zero.
pub open spec fn all_zero(s: Seq<u8>) -> bool {
    forall|i: int| 0 <= i < s.len() ==> s[i] == 0
}

/// Whether the address is the zero address.
pub fn is_zero_address(addr: &[u8; 32]) -> (r: bool)
    ensures
        r == all_zero(addr@),
{
    let mut i: usize = 0;
    while i < 32
        invariant
            i <= 32,
            addr@.len() == 32,
            forall|j: int| 0 <= j < i ==> addr@[j] == 0,
        decreases 32 - i,
    {
        if addr[i] != 0 {
            return false;
        }
        i = i + 1;
    }
    true
}

/// Byte-wise equality of two byte strings.
pub fn bytes_eq(a: &[u8], b: &[u8]) -> (r: bool)
    ensures
        r == (a@ == b@),
{
    if a.len() != b.len() {
        return false;
    }
    let mut i: usize = 0;
    while i < a.len()
        invariant
            i <= a@.len(),
            a@.len() == b@.len(),
            forall|j: int| 0 <= j < i ==> a@[j] == b@[j],
        decreases a@.len() - i,
    {
        if a[i] != b[i] {
            return false;
        }
        i = i + 1;
    }
    assert(a@ =~= b@);
    true
}

/// Copies `s[start..start + n]` into a new vector.
pub fn copy_range(s: &[u8], start: usize, n: usize) -> (r: Vec<u8>)
    requires
        start + n <= s@.len(),
    ensures
        r@ == s@.subrange(start as int, start + n),
{
    let len = s.len();
    let mut r: Vec<u8> = Vec::new();
    let mut i: usize = 0;
    while i < n
        invariant
            i <= n,
            start + n <= s@.len(),
            len == s@.len(),
            r@ == s@.subrange(start as int, start + i),
        decreases n - i,
    {
        r.push(s[start + i]);
        i = i + 1;
        assert(r@ =~= s@.subrange(start as int, start + i));
    }
    r
}

/// Appends `s` to `v`.
pub fn append_bytes(v: &mut Vec<u8>, s: &[u8])
    ensures
        final(v)@ == old(v)@ + s@,
{
    let mut i: usize = 0;
    while i < s.len()
        invariant
            i <= s@.len(),
            v@ == old(v)@ + s@.subrange(0, i as int),
        decreases s@.len() - i,
    {
        v.push(s[i]);
        i = i + 1;
        assert(v@ =~= old(v)@ + s@.subrange(0, i as int));
    }
    assert(s@.subrange(0, s@.len() as int) =~= s@);
}

/// A 32-byte address read at `offset`.
pub fn address_at(s: &[u8], offset: usize) -> (r: [u8; 32])
    requires
        offset + 32 <= s@.len(),
    ensures
        r@ == s@.subrange(offset as int, offset + 32),
{
    let len = s.len();
    let mut a: [u8; 32] = [0u8; 32];
    let mut i: usize = 0;
    while i < 32
        invariant
            i <= 32,
            offset + 32 <= s@.len(),
            len == s@.len(),
            a@.len() == 32,
            forall|j: int| 0 <= j < i ==> a@[j] == s@[offset + j],
        decreases 32 - i,
    {
        a[i] = s[offset + i];
        i = i + 1;
    }
    assert(a@ =~= s@.subrange(offset as int, offset + 32));
    a
}

} // verus!
