//! Natural numbers of any size, as little-endian sequences of 32-bit limbs.

use vstd::arithmetic::power2::pow2;
use vstd::prelude::*;

verus! {

/// `2^32` to the power `n`.
pub open spec fn weight(n: nat) -> nat
    decreases n,
{
    if n == 0 {
        1
    } else {
        0x1_0000_0000 * weight((n - 1) as nat)
    }
}

/// The number that the limbs stand for.
pub open spec fn value(s: Seq<u32>) -> nat
    decreases s.len(),
{
    if s.len() == 0 {
        0
    } else {
        value(s.drop_last()) + s.last() as nat * weight((s.len() - 1) as nat)
    }
}

proof fn lemma_weight(n: nat)
    ensures
        weight(n) > 0,
        weight(n + 1) == 0x1_0000_0000 * weight(n),
    decreases n,
{
    if n > 0 {
        lemma_weight((n - 1) as nat);
    }
}

proof fn lemma_value_push(s: Seq<u32>, x: u32)
    ensures
        value(s.push(x)) == value(s) + x as nat * weight(s.len()),
{
    assert(s.push(x).drop_last() =~= s);
}

proof fn lemma_value_take(s: Seq<u32>, i: int)
    requires
        0 <= i < s.len(),
    ensures
        value(s.take(i + 1)) == value(s.take(i)) + s[i] as nat * weight(i as nat),
{
    assert(s.take(i + 1).drop_last() =~= s.take(i));
}

proof fn lemma_value_bound(s: Seq<u32>)
    ensures
        value(s) < weight(s.len()),
    decreases s.len(),
{
    if s.len() > 0 {
        let w = weight((s.len() - 1) as nat);
        lemma_value_bound(s.drop_last());
        lemma_weight((s.len() - 1) as nat);
        assert(s.last() as nat * w <= 0xffff_ffff * w) by (nonlinear_arith)
            requires
                s.last() as nat <= 0xffff_ffff,
        ;
    }
}

/// The limbs of a 64-bit number.
pub fn from_u64(n: u64) -> (r: Vec<u32>)
    ensures
        value(r@) == n,
{
    let lo: u32 = (n % 0x1_0000_0000) as u32;
    let hi: u32 = (n / 0x1_0000_0000) as u32;
    let mut r: Vec<u32> = Vec::new();
    proof {
        assert(r@ =~= Seq::<u32>::empty());
        lemma_value_push(r@, lo);
        lemma_value_push(r@.push(lo), hi);
        reveal_with_fuel(weight, 3);
        let w = weight(1);
        assert(hi as nat * w == 0x1_0000_0000 * hi) by (nonlinear_arith)
            requires
                w == 0x1_0000_0000,
        ;
        assert(lo as nat * weight(0) == lo);
        assert(value(Seq::<u32>::empty()) == 0);
    }
    r.push(lo);
    r.push(hi);
    r
}

/// `a * m + c`.
pub fn mul_add(a: &Vec<u32>, m: u32, c: u32) -> (r: Vec<u32>)
    ensures
        value(r@) == value(a@) * m + c,
{
    let mut out: Vec<u32> = Vec::with_capacity(a.len());
    let mut carry: u32 = c;
    let mut i: usize = 0;
    proof {
        assert(a@.take(0) =~= Seq::<u32>::empty());
        assert(out@ =~= Seq::<u32>::empty());
        assert(weight(0) == 1);
        assert(carry as nat * weight(0) == c) by (nonlinear_arith)
            requires
                weight(0) == 1,
                carry == c,
        ;
        assert(0 * m as nat == 0);
    }
    while i < a.len()
        invariant
            i <= a.len(),
            out@.len() == i,
            value(out@) + carry as nat * weight(i as nat) == value(a@.take(i as int)) * m + c,
        decreases a.len() - i,
    {
        proof {
            assert(a[i as int] as int * m as int <= 0xffff_ffff * 0xffff_ffff) by (nonlinear_arith)
                requires
                    a[i as int] <= 0xffff_ffff,
                    m <= 0xffff_ffff,
            ;
        }
        let t: u64 = a[i] as u64 * m as u64 + carry as u64;
        let lo: u32 = (t % 0x1_0000_0000) as u32;
        let hi: u32 = (t / 0x1_0000_0000) as u32;
        proof {
            let w = weight(i as nat);
            lemma_weight(i as nat);
            lemma_value_push(out@, lo);
            lemma_value_take(a@, i as int);
            let x = a[i as int] as nat;
            let p = value(a@.take(i as int));
            assert(t == x * m + carry);
            assert(t == lo + 0x1_0000_0000 * hi);
            assert(lo as nat * w + hi as nat * (0x1_0000_0000 * w) == (x * m + carry) * w)
                by (nonlinear_arith)
                requires
                    t == x * m + carry,
                    t == lo + 0x1_0000_0000 * hi,
            ;
            assert((x * m + carry) * w == (x * w) * m + carry as nat * w) by (nonlinear_arith);
            assert((p + x * w) * m == p * m + (x * w) * m) by (nonlinear_arith);
        }
        out.push(lo);
        carry = hi;
        i += 1;
    }
    assert(a@.take(a@.len() as int) =~= a@);
    if carry > 0 {
        proof {
            lemma_value_push(out@, carry);
        }
        out.push(carry);
    }
    out
}

/// `a * 2^k`.
pub fn shift_left(a: &Vec<u32>, k: u32) -> (r: Vec<u32>)
    ensures
        value(r@) == value(a@) * pow2(k as nat),
{
    let mut out: Vec<u32> = mul_add(a, 1, 0);
    let mut left: u32 = k;
    proof {
        vstd::arithmetic::power2::lemma2_to64();
    }
    while left > 0
        invariant
            left <= k,
            value(a@) * pow2(k as nat) == value(out@) * pow2(left as nat),
        decreases left,
    {
        proof {
            vstd::arithmetic::power2::lemma2_to64();
        }
        if left >= 16 {
            let next = mul_add(&out, 65536, 0);
            proof {
                vstd::arithmetic::power2::lemma_pow2_adds(16, (left - 16) as nat);
                assert(value(out@) * (65536 * pow2((left - 16) as nat)) == (value(out@) * 65536)
                    * pow2((left - 16) as nat)) by (nonlinear_arith);
            }
            out = next;
            left -= 16;
        } else {
            let next = mul_add(&out, 2, 0);
            proof {
                vstd::arithmetic::power2::lemma_pow2_adds(1, (left - 1) as nat);
                assert(value(out@) * (2 * pow2((left - 1) as nat)) == (value(out@) * 2) * pow2(
                    (left - 1) as nat,
                )) by (nonlinear_arith);
            }
            out = next;
            left -= 1;
        }
    }
    proof {
        vstd::arithmetic::power2::lemma2_to64();
        assert(value(out@) * pow2(0) == value(out@)) by (nonlinear_arith)
            requires
                pow2(0) == 1,
        ;
    }
    out
}

fn limb(a: &Vec<u32>, i: usize) -> (r: u32)
    ensures
        r == (if i < a@.len() {
            a@[i as int]
        } else {
            0
        }),
{
    if i < a.len() {
        a[i]
    } else {
        0
    }
}

/// The low `n` limbs of `s`, with zero where it has none.
spec fn padded(s: Seq<u32>, n: nat) -> Seq<u32> {
    Seq::new(
        n,
        |i: int|
            if i < s.len() {
                s[i]
            } else {
                0
            },
    )
}

proof fn lemma_padded(s: Seq<u32>, n: nat)
    requires
        s.len() <= n,
    ensures
        value(padded(s, n)) == value(s),
    decreases n - s.len(),
{
    if s.len() == n {
        assert(padded(s, n) =~= s);
    } else {
        lemma_padded(s, (n - 1) as nat);
        assert(padded(s, n).drop_last() =~= padded(s, (n - 1) as nat));
        assert(padded(s, n).last() == 0);
        assert(0 * weight((n - 1) as nat) == 0);
    }
}

/// `a + b`.
pub fn plus(a: &Vec<u32>, b: &Vec<u32>) -> (r: Vec<u32>)
    ensures
        value(r@) == value(a@) + value(b@),
{
    let n: usize = if a.len() >= b.len() {
        a.len()
    } else {
        b.len()
    };
    let ghost pa = padded(a@, n as nat);
    let ghost pb = padded(b@, n as nat);
    let mut out: Vec<u32> = Vec::with_capacity(n);
    let mut carry: u32 = 0;
    let mut i: usize = 0;
    proof {
        lemma_padded(a@, n as nat);
        lemma_padded(b@, n as nat);
        assert(pa.take(0) =~= Seq::<u32>::empty());
        assert(pb.take(0) =~= Seq::<u32>::empty());
        assert(out@ =~= Seq::<u32>::empty());
    }
    while i < n
        invariant
            i <= n,
            n >= a.len(),
            n >= b.len(),
            pa == padded(a@, n as nat),
            pb == padded(b@, n as nat),
            out@.len() == i,
            carry <= 1,
            value(out@) + carry as nat * weight(i as nat) == value(pa.take(i as int)) + value(
                pb.take(i as int),
            ),
        decreases n - i,
    {
        let x: u32 = limb(a, i);
        let y: u32 = limb(b, i);
        let t: u64 = x as u64 + y as u64 + carry as u64;
        let lo: u32 = (t % 0x1_0000_0000) as u32;
        let hi: u32 = (t / 0x1_0000_0000) as u32;
        proof {
            let w = weight(i as nat);
            lemma_weight(i as nat);
            lemma_value_push(out@, lo);
            lemma_value_take(pa, i as int);
            lemma_value_take(pb, i as int);
            assert(lo as nat * w + hi as nat * (0x1_0000_0000 * w) == x as nat * w + y as nat * w
                + carry as nat * w) by (nonlinear_arith)
                requires
                    lo + 0x1_0000_0000 * hi == x + y + carry,
            ;
        }
        out.push(lo);
        carry = hi;
        i += 1;
    }
    proof {
        assert(pa.take(n as int) =~= pa);
        assert(pb.take(n as int) =~= pb);
        lemma_value_push(out@, carry);
    }
    out.push(carry);
    out
}

/// `a - b`, where `b` is not the larger.
pub fn minus(a: &Vec<u32>, b: &Vec<u32>) -> (r: Option<Vec<u32>>)
    ensures
        match r {
            Some(d) => value(a@) >= value(b@) && value(d@) == value(a@) - value(b@),
            None => value(a@) < value(b@),
        },
{
    let n: usize = if a.len() >= b.len() {
        a.len()
    } else {
        b.len()
    };
    let ghost pa = padded(a@, n as nat);
    let ghost pb = padded(b@, n as nat);
    let mut out: Vec<u32> = Vec::with_capacity(n);
    let mut borrow: u32 = 0;
    let mut i: usize = 0;
    proof {
        lemma_padded(a@, n as nat);
        lemma_padded(b@, n as nat);
        assert(pa.take(0) =~= Seq::<u32>::empty());
        assert(pb.take(0) =~= Seq::<u32>::empty());
        assert(out@ =~= Seq::<u32>::empty());
    }
    while i < n
        invariant
            i <= n,
            n >= a.len(),
            n >= b.len(),
            pa == padded(a@, n as nat),
            pb == padded(b@, n as nat),
            out@.len() == i,
            borrow <= 1,
            value(out@) + value(pb.take(i as int)) == value(pa.take(i as int)) + borrow as nat
                * weight(i as nat),
        decreases n - i,
    {
        let x: u32 = limb(a, i);
        let y: u32 = limb(b, i);
        let need: u64 = y as u64 + borrow as u64;
        let short: bool = (x as u64) < need;
        let lo: u32 = if short {
            (x as u64 + 0x1_0000_0000 - need) as u32
        } else {
            (x as u64 - need) as u32
        };
        let next: u32 = if short {
            1
        } else {
            0
        };
        proof {
            let w = weight(i as nat);
            lemma_weight(i as nat);
            lemma_value_push(out@, lo);
            lemma_value_take(pa, i as int);
            lemma_value_take(pb, i as int);
            assert(lo as nat * w + y as nat * w + borrow as nat * w == x as nat * w + next as nat * (
            0x1_0000_0000 * w)) by (nonlinear_arith)
                requires
                    lo + y + borrow == x + 0x1_0000_0000 * next,
            ;
        }
        out.push(lo);
        borrow = next;
        i += 1;
    }
    proof {
        assert(pa.take(n as int) =~= pa);
        assert(pb.take(n as int) =~= pb);
        lemma_value_bound(out@);
        lemma_weight(n as nat);
    }
    if borrow == 0 {
        Some(out)
    } else {
        None
    }
}

/// Quotient and remainder of `n / d`, where the quotient has at most `bits` bits.
pub fn divide(n: &Vec<u32>, d: &Vec<u32>, bits: u32) -> (r: (u64, Vec<u32>))
    requires
        value(d@) > 0,
        bits <= 63,
        value(n@) < value(d@) * pow2(bits as nat),
    ensures
        value(n@) == r.0 * value(d@) + value(r.1@),
        value(r.1@) < value(d@),
        r.0 < pow2(bits as nat),
    decreases bits,
{
    proof {
        vstd::arithmetic::power2::lemma2_to64();
    }
    if bits == 0 {
        proof {
            assert(value(d@) * pow2(0) == value(d@)) by (nonlinear_arith)
                requires
                    pow2(0) == 1,
            ;
        }
        let rest = mul_add(n, 1, 0);
        assert(0 * value(d@) == 0);
        return (0, rest);
    }
    let twice = mul_add(d, 2, 0);
    proof {
        vstd::arithmetic::power2::lemma_pow2_unfold(bits as nat);
        vstd::arithmetic::power2::lemma2_to64_rest();
        if bits < 63 {
            vstd::arithmetic::power2::lemma_pow2_strictly_increases(bits as nat, 63);
        }
        assert(value(d@) * (2 * pow2((bits - 1) as nat)) == (value(d@) * 2) * pow2(
            (bits - 1) as nat,
        )) by (nonlinear_arith);
    }
    let (q, rest) = divide(n, &twice, bits - 1);
    match minus(&rest, d) {
        Some(less) => {
            proof {
                assert(q * (value(d@) * 2) == (2 * q) * value(d@)) by (nonlinear_arith);
                assert((2 * q + 1) * value(d@) == (2 * q) * value(d@) + value(d@))
                    by (nonlinear_arith);
            }
            (2 * q + 1, less)
        },
        None => {
            proof {
                assert(q * (value(d@) * 2) == (2 * q) * value(d@)) by (nonlinear_arith);
            }
            (2 * q, rest)
        },
    }
}

} // verus!
