use vstd::prelude::*;

verus! {

/// An IPv4 address as a host integer; on the wire it is big-endian.
pub type IPv4Addr = u32;

/// The 16-bit big-endian value of bytes `at` and `at + 1` of `s`.
pub open spec fn be16_at(s: Seq<u8>, at: int) -> nat {
    s[at] as nat * 256 + s[at + 1] as nat
}

/// The 32-bit big-endian value of bytes `at .. at + 4` of `s`.
pub open spec fn be32_at(s: Seq<u8>, at: int) -> nat {
    s[at] as nat * 16777216 + s[at + 1] as nat * 65536 + s[at + 2] as nat * 256 + s[at + 3] as nat
}

/// Word `k` of `s` read as 16-bit big-endian words; a last odd byte is
/// padded with a zero byte.
pub open spec fn word_at(s: Seq<u8>, k: int) -> nat {
    s[2 * k] as nat * 256 + (if 2 * k + 1 < s.len() { s[2 * k + 1] as nat } else { 0 })
}

/// Number of 16-bit words that cover `s`.
pub open spec fn word_count(s: Seq<u8>) -> nat {
    ((s.len() + 1) / 2) as nat
}

/// Plain sum of the first `n` words of `s`.
pub open spec fn words_total(s: Seq<u8>, n: nat) -> nat
    decreases n,
{
    if n == 0 {
        0
    } else {
        words_total(s, (n - 1) as nat) + word_at(s, n - 1)
    }
}

/// The ones-complement sum of a total: carries out of bit 15 are added back
/// in until the value fits in 16 bits. Zero stays zero; any other total
/// lands in `1 ..= 0xffff`, congruent to it modulo `0xffff`.
pub open spec fn ones_fold(x: nat) -> nat {
    if x == 0 {
        0
    } else {
        ((x - 1) % 65535 + 1) as nat
    }
}

/// The Internet checksum (RFC 1071) of `s`: the complement of the
/// ones-complement sum of its 16-bit words.
pub open spec fn checksum_of(s: Seq<u8>) -> nat {
    (65535 - ones_fold(words_total(s, word_count(s)))) as nat
}

/// Reads the 16-bit big-endian value at `at`.
pub fn get_be16(b: &[u8], at: usize) -> (r: u16)
    requires
        at + 2 <= b@.len(),
    ensures
        r == be16_at(b@, at as int),
{
    (b[at] as u16) * 256 + (b[at + 1] as u16)
}

/// Reads the 32-bit big-endian value at `at`.
pub fn get_be32(b: &[u8], at: usize) -> (r: u32)
    requires
        at + 4 <= b@.len(),
    ensures
        r == be32_at(b@, at as int),
{
    (b[at] as u32) * 16777216 + (b[at + 1] as u32) * 65536 + (b[at + 2] as u32) * 256 + (b[at
        + 3] as u32)
}

/// Writes `v` big-endian at `at`; no other byte changes.
pub fn set_be16(b: &mut Vec<u8>, at: usize, v: u16)
    requires
        at + 2 <= old(b)@.len(),
    ensures
        final(b)@ == old(b)@.update(at as int, (v / 256) as u8).update(at + 1, (v % 256) as u8),
        be16_at(final(b)@, at as int) == v,
{
    // the length bounds the indices below by usize::MAX
    let _len = b.len();
    b.set(at, (v / 256) as u8);
    b.set(at + 1, (v % 256) as u8);
}

/// Writes `v` big-endian at `at`; no other byte changes.
pub fn set_be32(b: &mut Vec<u8>, at: usize, v: u32)
    requires
        at + 4 <= old(b)@.len(),
    ensures
        final(b)@ == old(b)@.update(at as int, (v / 16777216) as u8).update(
            at + 1,
            (v / 65536 % 256) as u8,
        ).update(at + 2, (v / 256 % 256) as u8).update(at + 3, (v % 256) as u8),
        be32_at(final(b)@, at as int) == v,
{
    // the length bounds the indices below by usize::MAX
    let _len = b.len();
    b.set(at, (v / 16777216) as u8);
    b.set(at + 1, (v / 65536 % 256) as u8);
    b.set(at + 2, (v / 256 % 256) as u8);
    b.set(at + 3, (v % 256) as u8);
}

/// Folding one more word into a folded sum gives the fold of the longer sum.
proof fn lemma_fold_step(x: nat, w: nat)
    requires
        w <= 65535,
    ensures
        ones_fold(x + w) == if ones_fold(x) + w > 65535 {
            (ones_fold(x) + w - 65535) as nat
        } else {
            ones_fold(x) + w
        },
        ones_fold(x) <= 65535,
{
    if x > 0 {
        let q = (x - 1) / 65535;
        let r = (x - 1) % 65535;
        vstd::arithmetic::div_mod::lemma_fundamental_div_mod(x - 1, 65535);
        vstd::arithmetic::div_mod::lemma_mod_pos_bound(x - 1, 65535);
        if r + w < 65535 {
            assert((x + w - 1) % 65535 == r + w) by (nonlinear_arith)
                requires
                    x - 1 == 65535 * q + r,
                    0 <= r + w < 65535,
            ;
        } else {
            assert((x + w - 1) % 65535 == r + w - 65535) by (nonlinear_arith)
                requires
                    x - 1 == 65535 * q + r,
                    65535 <= r + w < 2 * 65535,
            ;
        }
    }
}

/// Replacing a zero word of `s` by `hi, lo` adds that word to every running
/// total that covers it.
proof fn lemma_words_total_update(s: Seq<u8>, k: int, hi: u8, lo: u8, n: nat)
    requires
        0 <= k,
        2 * k + 1 < s.len(),
        s[2 * k] == 0,
        s[2 * k + 1] == 0,
        n <= word_count(s),
    ensures
        words_total(s.update(2 * k, hi).update(2 * k + 1, lo), n) == words_total(s, n) + (
        if n > k {
            hi as nat * 256 + lo as nat
        } else {
            0
        }),
    decreases n,
{
    let t = s.update(2 * k, hi).update(2 * k + 1, lo);
    if n > 0 {
        lemma_words_total_update(s, k, hi, lo, (n - 1) as nat);
        if n - 1 == k {
            assert(word_at(t, k) == hi as nat * 256 + lo as nat);
            assert(word_at(s, k) == 0);
        } else {
            assert(t[2 * (n - 1)] == s[2 * (n - 1)]);
            if 2 * (n - 1) + 1 < s.len() {
                assert(t[2 * (n - 1) + 1] == s[2 * (n - 1) + 1]);
            }
            assert(word_at(t, n - 1) == word_at(s, n - 1));
        }
    }
}

/// Writing the checksum of `s` into its zeroed 16-bit field at word `k`
/// gives bytes whose checksum is zero: a header built this way passes the
/// check on the way in.
pub proof fn lemma_checksum_fill(s: Seq<u8>, k: int)
    requires
        0 <= k,
        2 * k + 1 < s.len(),
        s[2 * k] == 0,
        s[2 * k + 1] == 0,
    ensures
        checksum_of(
            s.update(2 * k, (checksum_of(s) / 256) as u8).update(
                2 * k + 1,
                (checksum_of(s) % 256) as u8,
            ),
        ) == 0,
{
    let c = checksum_of(s);
    let hi = (c / 256) as u8;
    let lo = (c % 256) as u8;
    let t = s.update(2 * k, hi).update(2 * k + 1, lo);
    let total = words_total(s, word_count(s));
    lemma_fold_step(total, 0);
    assert(c <= 65535);
    assert(hi as nat * 256 + lo as nat == c);
    assert(word_count(t) == word_count(s));
    lemma_words_total_update(s, k, hi, lo, word_count(s));
    lemma_fold_step(total, c);
}

/// The Internet checksum of `s`.
pub fn compute_checksum(s: &[u8]) -> (r: u16)
    ensures
        r == checksum_of(s@),
{
    let len = s.len();
    let n: usize = len / 2 + len % 2;
    let mut sum: u32 = 0;
    let mut k: usize = 0;
    while k < n
        invariant
            len == s@.len(),
            n == word_count(s@),
            k <= n,
            sum <= 65535,
            sum == ones_fold(words_total(s@, k as nat)),
        decreases n - k,
    {
        let hi = s[2 * k] as u32;
        let lo: u32 = if 2 * k + 1 < len { s[2 * k + 1] as u32 } else { 0 };
        let w = hi * 256 + lo;
        assert(w == word_at(s@, k as int));
        proof {
            lemma_fold_step(words_total(s@, k as nat), w as nat);
        }
        sum = sum + w;
        if sum > 65535 {
            sum = sum - 65535;
        }
        k = k + 1;
    }
    (65535 - sum) as u16
}

} // verus!
