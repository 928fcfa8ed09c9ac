//! The Internet checksum (RFC 1071) and the IPv4, ICMP and TCP fields that
//! carry it.
use vstd::prelude::*;

verus! {

/// Bytes a checksummed region may span.
pub const MAX_REGION: usize = 0x1_0000;

/// The `k`-th big-endian 16-bit word of `d`, a missing last byte read as 0.
pub open spec fn word_at(d: Seq<u8>, k: nat) -> nat {
    (d[2 * k as int] as nat) * 256 + if 2 * k + 1 < d.len() {
        d[2 * k + 1int] as nat
    } else {
        0
    }
}

/// Sum of the first `n` words of `d`.
pub open spec fn sum_words(d: Seq<u8>, n: nat) -> nat
    decreases n,
{
    if n == 0 {
        0
    } else {
        sum_words(d, (n - 1) as nat) + word_at(d, (n - 1) as nat)
    }
}

pub open spec fn word_count(d: Seq<u8>) -> nat {
    (d.len() + 1) / 2
}

/// One end-around-carry step of ones'-complement addition.
pub open spec fn fold16(s: nat) -> nat {
    s % 65536 + s / 65536
}

/// The ones'-complement sum of all words of `d`, folded to 16 bits.
pub open spec fn ones_sum(d: Seq<u8>) -> nat {
    fold16(fold16(sum_words(d, word_count(d))))
}

/// The checksum that makes the ones'-complement sum of `d` all ones.
pub open spec fn checksum_of(d: Seq<u8>) -> u16 {
    (65535 - ones_sum(d)) as u16
}

proof fn lemma_sum_bound(d: Seq<u8>, n: nat)
    requires
        2 * n <= d.len() + 1,
    ensures
        sum_words(d, n) <= n * 65535,
    decreases n,
{
    if n > 0 {
        lemma_sum_bound(d, (n - 1) as nat);
        assert((n - 1) * 65535 + 65535 == n * 65535) by (nonlinear_arith);
    }
}

/// The checksum of `d[lo..hi]`.
pub fn internet_checksum(d: &[u8], lo: usize, hi: usize) -> (r: u16)
    requires
        lo <= hi <= d@.len(),
        hi - lo <= MAX_REGION + 12,
    ensures
        r == checksum_of(d@.subrange(lo as int, hi as int)),
{
    let ghost s = d@.subrange(lo as int, hi as int);
    let n = (hi - lo + 1) / 2;
    let mut sum: u64 = 0;
    let mut k: usize = 0;
    proof {
        lemma_sum_bound(s, n as nat);
    }
    while k < n
        invariant
            s == d@.subrange(lo as int, hi as int),
            lo <= hi <= d@.len(),
            hi - lo <= MAX_REGION + 12,
            n == word_count(s),
            k <= n,
            sum == sum_words(s, k as nat),
            sum_words(s, n as nat) <= n * 65535,
        decreases n - k,
    {
        proof {
            lemma_sum_mono(s, (k + 1) as nat, n as nat);
        }
        let hi_byte = d[lo + 2 * k] as u64;
        let lo_byte: u64 = if lo + 2 * k + 1 < hi {
            d[lo + 2 * k + 1] as u64
        } else {
            0
        };
        sum = sum + hi_byte * 256 + lo_byte;
        k = k + 1;
    }
    let f1 = sum % 65536 + sum / 65536;
    let f2 = f1 % 65536 + f1 / 65536;
    assert(f2 <= 65535) by (nonlinear_arith)
        requires f1 == sum % 65536 + sum / 65536, f2 == f1 % 65536 + f1 / 65536, sum <= 0x1_0000 * 65535;
    (65535 - f2) as u16
}

proof fn lemma_sum_mono(d: Seq<u8>, a: nat, b: nat)
    requires
        a <= b,
    ensures
        sum_words(d, a) <= sum_words(d, b),
    decreases b,
{
    if a < b {
        lemma_sum_mono(d, a, (b - 1) as nat);
    }
}

/// `d` with the big-endian 16-bit value `v` written at `at`.
pub open spec fn put16(d: Seq<u8>, at: int, v: u16) -> Seq<u8> {
    d.update(at, (v >> 8u16) as u8).update(at + 1, v as u8)
}

pub open spec fn get16(d: Seq<u8>, at: int) -> u16 {
    ((d[at] as u16) << 8u16) | (d[at + 1] as u16)
}

/// Writes into `d[at..at+2]` the checksum of `d[lo..hi]` taken with that
/// field zeroed.
pub fn fill_checksum(d: &mut Vec<u8>, lo: usize, hi: usize, at: usize)
    requires
        lo <= at,
        at + 2 <= hi,
        hi <= old(d)@.len(),
        hi - lo <= MAX_REGION + 12,
    ensures
        final(d)@ == put16(
            old(d)@,
            at as int,
            checksum_of(put16(old(d)@, at as int, 0).subrange(lo as int, hi as int)),
        ),
{
    d.set(at, 0);
    d.set(at + 1, 0);
    assert(d@ =~= put16(old(d)@, at as int, 0)) by {
        assert((0u16 >> 8u16) as u8 == 0u8) by (bit_vector);
        assert((0u16) as u8 == 0u8);
    }
    let c = internet_checksum(d.as_slice(), lo, hi);
    d.set(at, (c >> 8u16) as u8);
    d.set(at + 1, c as u8);
    assert(d@ =~= put16(old(d)@, at as int, c));
}

proof fn lemma_word_put(d: Seq<u8>, k: nat, v: u16, j: nat)
    requires
        2 * k + 1 < d.len(),
        2 * j < d.len(),
    ensures
        word_at(put16(d, 2 * k as int, v), j) == if j == k {
            v as nat
        } else {
            word_at(d, j)
        },
{
    let e = put16(d, 2 * k as int, v);
    if j == k {
        assert(((v >> 8u16) as u8) as nat * 256 + (v as u8) as nat == v as nat) by {
            assert((((v >> 8u16) as u8) as u16) * 256 + ((v as u8) as u16) == v) by (bit_vector);
        }
    } else {
        assert(e[2 * j as int] == d[2 * j as int]);
        if 2 * j + 1 < d.len() {
            assert(e[2 * j + 1int] == d[2 * j + 1int]);
        }
    }
}

proof fn lemma_sum_put(d: Seq<u8>, k: nat, v: u16, n: nat)
    requires
        2 * k + 1 < d.len(),
        2 * n <= d.len() + 1,
    ensures
        sum_words(put16(d, 2 * k as int, v), n) + (if k < n {
            word_at(d, k)
        } else {
            0
        }) == sum_words(d, n) + (if k < n {
            v as nat
        } else {
            0
        }),
    decreases n,
{
    if n > 0 {
        lemma_sum_put(d, k, v, (n - 1) as nat);
        lemma_word_put(d, k, v, (n - 1) as nat);
    }
}

proof fn lemma_fold_twice(x: nat)
    requires
        x <= 32775 * 65535,
    ensures
        fold16(fold16(x)) <= 65535,
{
    let f1 = fold16(x);
    assert(f1 <= 65535 + 32775);
    if f1 >= 65536 {
        assert(f1 / 65536 == 1);
    }
}

proof fn lemma_fold_mod(x: nat)
    ensures
        fold16(x) % 65535 == x % 65535,
        x > 0 ==> fold16(x) > 0,
{
    let q = x / 65536;
    let r = x % 65536;
    assert(x == 65536 * q + r) by (nonlinear_arith)
        requires q == x / 65536, r == x % 65536;
    assert((q + r) % 65535 == (65536 * q + r) % 65535) by (nonlinear_arith)
        requires q >= 0, r >= 0;
}

/// Writing the checksum of a region, taken with its field zeroed, into that
/// field makes the ones'-complement sum of the region all ones: a receiver
/// that sums the region finds it valid.
pub proof fn lemma_checksum_validates(r: Seq<u8>, f: int)
    requires
        0 <= f,
        f % 2 == 0,
        f + 1 < r.len(),
        r.len() <= MAX_REGION + 12,
    ensures
        ones_sum(put16(r, f, checksum_of(put16(r, f, 0)))) == 65535,
{
    let z = put16(r, f, 0);
    let k = (f / 2) as nat;
    assert(2 * k == f);
    let n = word_count(r);
    let s0 = sum_words(z, n);
    lemma_sum_bound(z, n);
    assert(n <= 32774);
    assert(s0 <= 32774 * 65535) by (nonlinear_arith)
        requires s0 <= n * 65535, n <= 32774;
    let f1 = fold16(s0);
    let ff = fold16(f1);
    lemma_fold_twice(s0);
    let c = (65535 - ff) as u16;
    let w = put16(r, f, c);
    assert(put16(z, f, c) =~= w);
    lemma_word_put(r, k, 0, k);
    lemma_sum_put(z, k, c, n);
    lemma_word_put(z, k, 0, k);
    assert(word_at(z, k) == 0) by {
        assert(put16(put16(r, f, 0), f, 0) =~= z);
        lemma_word_put(z, k, 0, k);
    }
    let s1 = sum_words(w, n);
    assert(s1 == s0 + c);
    lemma_fold_mod(s0);
    lemma_fold_mod(f1);
    assert(s1 % 65535 == 0) by (nonlinear_arith)
        requires s1 == s0 + 65535 - ff, ff % 65535 == s0 % 65535, ff <= 65535, ff >= 0;
    assert(s1 > 0) by {
        if s0 == 0 {
            assert(f1 == 0);
            assert(ff == 0);
        }
    }
    let g1 = fold16(s1);
    let g2 = fold16(g1);
    lemma_fold_mod(s1);
    lemma_fold_mod(g1);
    lemma_fold_twice(s1);
    assert(g2 == 65535) by (nonlinear_arith)
        requires g2 % 65535 == 0, g2 > 0, g2 <= 65535;
    assert(word_count(w) == n);
}

} // verus!
