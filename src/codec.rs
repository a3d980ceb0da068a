//! Big-endian codec for 32-byte words and dynamically sized byte strings.

use vstd::prelude::*;

verus! {

/// `256` raised to the power `k`: the number of values that `k` bytes hold.
pub open spec fn pow256(k: nat) -> nat
    decreases k,
{
    if k == 0 {
        1
    } else {
        256 * pow256((k - 1) as nat)
    }
}

/// The unsigned number that the bytes `s` denote, most significant byte first.
pub open spec fn be_value(s: Seq<u8>) -> nat
    decreases s.len(),
{
    if s.len() == 0 {
        0
    } else {
        be_value(s.drop_last()) * 256 + s.last() as nat
    }
}

/// The `k` low-order bytes of `n`, most significant first.
pub open spec fn be_bytes(n: nat, k: nat) -> Seq<u8>
    decreases k,
{
    if k == 0 {
        Seq::empty()
    } else {
        be_bytes(n / 256, (k - 1) as nat).push((n % 256) as u8)
    }
}

/// `n` as one 32-byte word.
pub open spec fn word_of(n: nat) -> Seq<u8> {
    be_bytes(n, 32)
}

/// The word whose value is zero.
pub open spec fn zero_word() -> Seq<u8> {
    Seq::new(32, |i: int| 0u8)
}

/// The 32-byte word that starts at byte `at` of `s`.
pub open spec fn word_at(s: Seq<u8>, at: int) -> Seq<u8> {
    s.subrange(at, at + 32)
}

/// The low 64 bits of a word's value.
pub open spec fn low_u64(w: Seq<u8>) -> nat {
    be_value(w.subrange(w.len() - 8, w.len() as int))
}

/// Zero bytes that bring a payload of `n` bytes to a whole number of words.
pub open spec fn padding_len(n: nat) -> nat {
    ((32 - n % 32) % 32) as nat
}

/// A byte string in the dynamic layout: a head word holding the offset `32`
/// of what follows, a word holding the length, the bytes, and zero padding up
/// to the next word boundary.
pub open spec fn abi_bytes(s: Seq<u8>) -> Seq<u8> {
    word_of(32) + word_of(s.len()) + s + Seq::new(padding_len(s.len()), |i: int| 0u8)
}

pub proof fn lemma_pow256_positive(k: nat)
    ensures
        pow256(k) >= 1,
    decreases k,
{
    if k > 0 {
        lemma_pow256_positive((k - 1) as nat);
    }
}

pub proof fn lemma_pow256_8()
    ensures
        pow256(8) == 0x1_0000_0000_0000_0000,
{
    reveal_with_fuel(pow256, 9);
}

pub proof fn lemma_pow256_4()
    ensures
        pow256(4) == 0x1_0000_0000,
{
    reveal_with_fuel(pow256, 5);
}

/// A value read from `k` bytes is below `256^k`.
pub proof fn lemma_be_value_bound(s: Seq<u8>)
    ensures
        be_value(s) < pow256(s.len()),
    decreases s.len(),
{
    if s.len() > 0 {
        lemma_be_value_bound(s.drop_last());
        let a = be_value(s.drop_last());
        let p = pow256((s.len() - 1) as nat);
        assert(a * 256 + (s.last() as nat) < p * 256) by (nonlinear_arith)
            requires
                a < p,
                s.last() < 256,
        ;
    }
}

/// Reading a concatenation: the front part is shifted by the back part's width.
pub proof fn lemma_be_value_append(a: Seq<u8>, b: Seq<u8>)
    ensures
        be_value(a + b) == be_value(a) * pow256(b.len()) + be_value(b),
    decreases b.len(),
{
    if b.len() == 0 {
        assert(a + b =~= a);
        assert(pow256(0) == 1);
    } else {
        assert((a + b).drop_last() =~= a + b.drop_last());
        assert((a + b).last() == b.last());
        lemma_be_value_append(a, b.drop_last());
        let x = be_value(a);
        let p = pow256((b.len() - 1) as nat);
        let y = be_value(b.drop_last());
        assert(be_value(b) == y * 256 + (b.last() as nat));
        assert(pow256(b.len()) == 256 * p);
        assert(be_value(a + b) == be_value(a + b.drop_last()) * 256 + (b.last() as nat));
        assert((x * p + y) * 256 + (b.last() as nat) == x * (256 * p) + (y * 256 + (b.last() as nat)))
            by (nonlinear_arith);
    }
}

/// Bytes that are not all zero denote a positive number.
pub proof fn lemma_be_value_nonzero(s: Seq<u8>, i: int)
    requires
        0 <= i < s.len(),
        s[i] != 0,
    ensures
        be_value(s) >= 1,
    decreases s.len(),
{
    if i < s.len() - 1 {
        lemma_be_value_nonzero(s.drop_last(), i);
        assert(be_value(s.drop_last()) * 256 >= 1) by (nonlinear_arith)
            requires
                be_value(s.drop_last()) >= 1,
        ;
    }
}

/// Bytes that are all zero denote zero.
pub proof fn lemma_be_value_zero(s: Seq<u8>)
    requires
        forall|i: int| 0 <= i < s.len() ==> s[i] == 0,
    ensures
        be_value(s) == 0,
    decreases s.len(),
{
    if s.len() > 0 {
        lemma_be_value_zero(s.drop_last());
    }
}

/// Writing a number in `k` bytes and reading it back gives the number.
pub proof fn lemma_be_bytes_value(n: nat, k: nat)
    requires
        n < pow256(k),
    ensures
        be_bytes(n, k).len() == k,
        be_value(be_bytes(n, k)) == n,
    decreases k,
{
    if k > 0 {
        let p = pow256((k - 1) as nat);
        assert(n / 256 < p) by (nonlinear_arith)
            requires
                n < 256 * p,
        ;
        lemma_be_bytes_value(n / 256, (k - 1) as nat);
        let s = be_bytes(n, k);
        assert(s.drop_last() =~= be_bytes(n / 256, (k - 1) as nat));
        assert((n / 256) * 256 + n % 256 == n) by (nonlinear_arith);
    }
}

/// The value of the bytes `s[start..start + n]`, for `n` up to eight.
pub fn read_be(s: &Vec<u8>, start: usize, n: usize) -> (r: u64)
    requires
        n <= 8,
        start + n <= s.len(),
    ensures
        r as nat == be_value(s@.subrange(start as int, start + n)),
{
    let mut v: u64 = 0;
    let mut i: usize = 0;
    while i < n
        invariant
            n <= 8,
            i <= n,
            start + n <= s.len(),
            v as nat == be_value(s@.subrange(start as int, start + i)),
            (v as nat) < pow256(i as nat),
        decreases n - i,
    {
        assert(start + i < s@.len());
        let b = s[start + i];
        let ghost prev = s@.subrange(start as int, start + i);
        assert(s@.subrange(start as int, start + i + 1).drop_last() =~= prev);
        proof {
            lemma_pow256_8();
            let p = pow256(i as nat);
            lemma_pow_mono(i as nat, 7);
            assert((v as nat) * 256 + (b as nat) < 256 * p) by (nonlinear_arith)
                requires
                    (v as nat) < p,
                    b < 256,
            ;
        }
        v = v * 256 + b as u64;
        i = i + 1;
    }
    v
}

pub proof fn lemma_pow_mono(a: nat, b: nat)
    requires
        a <= b,
    ensures
        pow256(a) <= pow256(b),
    decreases b,
{
    if a < b {
        lemma_pow_mono(a, (b - 1) as nat);
        lemma_pow256_positive((b - 1) as nat);
    }
}

/// Appends the `k` low-order bytes of `n`, most significant first.
pub fn push_be(out: &mut Vec<u8>, n: u64, k: usize)
    ensures
        final(out)@ == old(out)@ + be_bytes(n as nat, k as nat),
    decreases k,
{
    if k > 0 {
        push_be(out, n / 256, k - 1);
        out.push((n % 256) as u8);
        assert(out@ =~= old(out)@ + be_bytes(n as nat, k as nat));
    } else {
        assert(old(out)@ + be_bytes(n as nat, 0) =~= old(out)@);
    }
}

/// A fresh vector with the same bytes.
pub fn copy_bytes(v: &Vec<u8>) -> (r: Vec<u8>)
    ensures
        r@ == v@,
{
    let mut r: Vec<u8> = Vec::new();
    let mut i: usize = 0;
    while i < v.len()
        invariant
            i <= v@.len(),
            r@ == v@.subrange(0, i as int),
        decreases v@.len() - i,
    {
        r.push(v[i]);
        i = i + 1;
        assert(r@ =~= v@.subrange(0, i as int));
    }
    assert(v@.subrange(0, v@.len() as int) =~= v@);
    r
}

/// Whether two vectors hold the same bytes.
pub fn bytes_equal(a: &Vec<u8>, b: &Vec<u8>) -> (r: bool)
    ensures
        r == (a@ == b@),
{
    if a.len() != b.len() {
        return false;
    }
    let mut i: usize = 0;
    while i < a.len()
        invariant
            a@.len() == b@.len(),
            i <= a@.len(),
            forall|j: int| 0 <= j < i ==> a@[j] == b@[j],
        decreases a@.len() - i,
    {
        if a[i] != b[i] {
            return false;
        }
        i = i + 1;
    }
    assert(a@ =~= b@);
    true
}

/// A fresh vector with the bytes `s[from..to]`.
pub fn read_range(s: &Vec<u8>, from: usize, to: usize) -> (r: Vec<u8>)
    requires
        from <= to <= s@.len(),
    ensures
        r@ == s@.subrange(from as int, to as int),
{
    let mut r: Vec<u8> = Vec::new();
    let mut i: usize = from;
    while i < to
        invariant
            from <= i <= to <= s@.len(),
            r@ == s@.subrange(from as int, i as int),
        decreases to - i,
    {
        r.push(s[i]);
        i = i + 1;
        assert(r@ =~= s@.subrange(from as int, i as int));
    }
    r
}

/// The value of a word, where it fits in 64 bits.
pub fn word_value(w: &Vec<u8>) -> (r: Option<u64>)
    requires
        w@.len() == 32,
    ensures
        r is Some <==> be_value(w@) < pow256(8),
        r is Some ==> r->Some_0 as nat == be_value(w@),
{
    let ghost high = w@.subrange(0, 24);
    let ghost low = w@.subrange(24, 32);
    proof {
        assert(w@ =~= high + low);
        lemma_be_value_append(high, low);
        assert(low.len() == 8);
        lemma_be_value_bound(low);
    }
    let mut i: usize = 0;
    while i < 24
        invariant
            i <= 24,
            w@.len() == 32,
            high == w@.subrange(0, 24),
            low == w@.subrange(24, 32),
            be_value(w@) == be_value(high) * pow256(8) + be_value(low),
            forall|j: int| 0 <= j < i ==> w@[j] == 0,
        decreases 24 - i,
    {
        if w[i] != 0 {
            proof {
                lemma_be_value_nonzero(high, i as int);
                assert(be_value(high) * pow256(8) >= pow256(8)) by (nonlinear_arith)
                    requires
                        be_value(high) >= 1,
                ;
            }
            return None;
        }
        i = i + 1;
    }
    proof {
        lemma_be_value_zero(high);
    }
    Some(read_be(w, 24, 8))
}

} // verus!
