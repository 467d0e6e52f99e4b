//! Little-endian sequences of 32-bit limbs and the natural numbers they denote.

use vstd::prelude::*;

verus! {

/// The radix of one limb, as a machine word wide enough for limb arithmetic.
pub(crate) const RADIX: u64 = 0x1_0000_0000;

/// `RADIX` raised to the power `n`.
pub(crate) open spec fn radix_pow(n: nat) -> nat
    decreases n,
{
    if n == 0 {
        1
    } else {
        0x1_0000_0000 * radix_pow((n - 1) as nat)
    }
}

/// The number denoted by a little-endian limb sequence.
pub(crate) open spec fn limbs_value(limbs: Seq<u32>) -> nat
    decreases limbs.len(),
{
    if limbs.len() == 0 {
        0
    } else {
        limbs[0] as nat + 0x1_0000_0000 * limbs_value(limbs.drop_first())
    }
}

/// A limb sequence is canonical when it carries no zero limb at its high end.
pub(crate) open spec fn canonical(limbs: Seq<u32>) -> bool {
    limbs.len() > 0 ==> limbs.last() != 0
}

/// The limb at position `i`, reading zero beyond the high end.
pub(crate) open spec fn limb_at(limbs: Seq<u32>, i: int) -> nat {
    if 0 <= i < limbs.len() {
        limbs[i] as nat
    } else {
        0
    }
}

/// The number denoted by the lowest `i` limbs.
pub(crate) open spec fn low_value(limbs: Seq<u32>, i: int) -> nat {
    if i <= 0 {
        0
    } else if i >= limbs.len() {
        limbs_value(limbs)
    } else {
        limbs_value(limbs.take(i))
    }
}

pub(crate) proof fn lemma_radix_pow_positive(n: nat)
    ensures
        radix_pow(n) > 0,
    decreases n,
{
    if n > 0 {
        lemma_radix_pow_positive((n - 1) as nat);
        assert(0x1_0000_0000 * radix_pow((n - 1) as nat) > 0) by (nonlinear_arith)
            requires
                radix_pow((n - 1) as nat) > 0,
        ;
    }
}

/// Appending a limb at the high end adds it at the weight of its position.
pub(crate) proof fn lemma_value_push(limbs: Seq<u32>, x: u32)
    ensures
        limbs_value(limbs.push(x)) == limbs_value(limbs) + x * radix_pow(limbs.len()),
    decreases limbs.len(),
{
    let pushed = limbs.push(x);
    if limbs.len() == 0 {
        assert(pushed.drop_first() =~= Seq::<u32>::empty());
        assert(limbs_value(pushed.drop_first()) == 0);
        assert(radix_pow(0) == 1);
    } else {
        let tail = limbs.drop_first();
        assert(pushed.drop_first() =~= tail.push(x));
        lemma_value_push(tail, x);
        let w = radix_pow(tail.len());
        assert(radix_pow(limbs.len()) == 0x1_0000_0000 * w);
        assert(0x1_0000_0000 * (limbs_value(tail) + x * w) == 0x1_0000_0000 * limbs_value(tail) + x
            * (0x1_0000_0000 * w)) by (nonlinear_arith);
    }
}

/// A sequence of `n` limbs denotes a number below `RADIX^n`.
pub(crate) proof fn lemma_value_bound(limbs: Seq<u32>)
    ensures
        limbs_value(limbs) < radix_pow(limbs.len()),
    decreases limbs.len(),
{
    if limbs.len() > 0 {
        let tail = limbs.drop_first();
        lemma_value_bound(tail);
        let w = radix_pow(tail.len());
        assert(radix_pow(limbs.len()) == 0x1_0000_0000 * w);
        assert(limbs[0] as nat + 0x1_0000_0000 * limbs_value(tail) < 0x1_0000_0000 * w)
            by (nonlinear_arith)
            requires
                limbs[0] < 0x1_0000_0000,
                limbs_value(tail) < w,
        ;
    }
}

/// Extending the low part by one position adds that position's limb at its weight.
pub(crate) proof fn lemma_low_value_step(limbs: Seq<u32>, i: int)
    requires
        0 <= i,
    ensures
        low_value(limbs, i + 1) == low_value(limbs, i) + limb_at(limbs, i) * radix_pow(i as nat),
{
    if i < limbs.len() {
        let shorter = limbs.take(i);
        assert(limbs.take(i + 1) =~= shorter.push(limbs[i]));
        lemma_value_push(shorter, limbs[i]);
        if i + 1 == limbs.len() {
            assert(limbs.take(i + 1) =~= limbs);
        }
        if i == 0 {
            assert(limbs_value(shorter) == 0);
        }
    } else {
        assert(limb_at(limbs, i) * radix_pow(i as nat) == 0) by (nonlinear_arith)
            requires
                limb_at(limbs, i) == 0,
        ;
    }
}

/// A canonical, non-empty sequence denotes at least the weight of its top position.
pub(crate) proof fn lemma_canonical_lower_bound(limbs: Seq<u32>)
    requires
        limbs.len() > 0,
        limbs.last() != 0,
    ensures
        limbs_value(limbs) >= radix_pow((limbs.len() - 1) as nat),
{
    let shorter = limbs.drop_last();
    assert(limbs =~= shorter.push(limbs.last()));
    lemma_value_push(shorter, limbs.last());
    let w = radix_pow(shorter.len());
    assert(limbs.last() * w >= w) by (nonlinear_arith)
        requires
            limbs.last() >= 1,
    ;
}

/// Removing a zero limb from the high end leaves the number unchanged.
pub(crate) proof fn lemma_value_drop_zero(limbs: Seq<u32>)
    requires
        limbs.len() > 0,
        limbs.last() == 0,
    ensures
        limbs_value(limbs.drop_last()) == limbs_value(limbs),
{
    let shorter = limbs.drop_last();
    assert(limbs =~= shorter.push(limbs.last()));
    lemma_value_push(shorter, limbs.last());
    assert(limbs.last() * radix_pow(shorter.len()) == 0) by (nonlinear_arith)
        requires
            limbs.last() == 0,
    ;
}

/// Strips zero limbs from the high end.
pub(crate) fn trim(limbs: Vec<u32>) -> (out: Vec<u32>)
    ensures
        canonical(out@),
        limbs_value(out@) == limbs_value(limbs@),
{
    let mut out = limbs;
    while out.len() > 0 && out[out.len() - 1] == 0
        invariant
            limbs_value(out@) == limbs_value(limbs@),
        decreases out.len(),
    {
        proof {
            lemma_value_drop_zero(out@);
        }
        out.pop();
    }
    out
}

/// Reads the limb at position `i`, zero beyond the high end.
pub(crate) fn limb_or_zero(limbs: &Vec<u32>, i: usize) -> (limb: u32)
    ensures
        limb == limb_at(limbs@, i as int),
{
    if i < limbs.len() {
        limbs[i]
    } else {
        0
    }
}

/// Adds two limb sequences.
pub(crate) fn add_limbs(a: &Vec<u32>, b: &Vec<u32>) -> (out: Vec<u32>)
    ensures
        limbs_value(out@) == limbs_value(a@) + limbs_value(b@),
{
    let n: usize = if a.len() >= b.len() {
        a.len()
    } else {
        b.len()
    };
    let mut out: Vec<u32> = Vec::new();
    let mut carry: u64 = 0;
    let mut i: usize = 0;
    while i < n
        invariant
            i <= n,
            n >= a.len(),
            n >= b.len(),
            out.len() == i,
            carry <= 1,
            limbs_value(out@) + carry * radix_pow(i as nat) == low_value(a@, i as int) + low_value(
                b@,
                i as int,
            ),
        decreases n - i,
    {
        let x: u64 = limb_or_zero(a, i) as u64 + limb_or_zero(b, i) as u64 + carry;
        let low: u32 = (x % RADIX) as u32;
        let high: u64 = x / RADIX;
        proof {
            let w = radix_pow(i as nat);
            lemma_value_push(out@, low);
            lemma_low_value_step(a@, i as int);
            lemma_low_value_step(b@, i as int);
            assert(radix_pow((i + 1) as nat) == 0x1_0000_0000 * w);
            assert(low * w + high * (0x1_0000_0000 * w) == (limb_at(a@, i as int) + limb_at(
                b@,
                i as int,
            ) + carry) * w) by (nonlinear_arith)
                requires
                    low + high * 0x1_0000_0000 == limb_at(a@, i as int) + limb_at(b@, i as int)
                        + carry,
            ;
            assert((limb_at(a@, i as int) + limb_at(b@, i as int) + carry) * w == limb_at(
                a@,
                i as int,
            ) * w + limb_at(b@, i as int) * w + carry * w) by (nonlinear_arith);
        }
        out.push(low);
        carry = high;
        i += 1;
    }
    proof {
        lemma_value_push(out@, carry as u32);
    }
    out.push(carry as u32);
    out
}

/// Subtracts the smaller limb sequence from the larger.
pub(crate) fn sub_limbs(a: &Vec<u32>, b: &Vec<u32>) -> (out: Vec<u32>)
    requires
        limbs_value(a@) >= limbs_value(b@),
    ensures
        limbs_value(out@) == limbs_value(a@) - limbs_value(b@),
{
    let n: usize = if a.len() >= b.len() {
        a.len()
    } else {
        b.len()
    };
    let mut out: Vec<u32> = Vec::new();
    let mut borrow: u64 = 0;
    let mut i: usize = 0;
    while i < n
        invariant
            i <= n,
            n >= a.len(),
            n >= b.len(),
            out.len() == i,
            borrow <= 1,
            limbs_value(out@) + low_value(b@, i as int) == low_value(a@, i as int) + borrow
                * radix_pow(i as nat),
        decreases n - i,
    {
        let take: u64 = limb_or_zero(b, i) as u64 + borrow;
        let have: u64 = limb_or_zero(a, i) as u64;
        let low: u32 = if have >= take {
            (have - take) as u32
        } else {
            (have + RADIX - take) as u32
        };
        let next: u64 = if have >= take {
            0
        } else {
            1
        };
        proof {
            let w = radix_pow(i as nat);
            lemma_value_push(out@, low);
            lemma_low_value_step(a@, i as int);
            lemma_low_value_step(b@, i as int);
            assert(radix_pow((i + 1) as nat) == 0x1_0000_0000 * w);
            assert(low * w + limb_at(b@, i as int) * w + borrow * w == limb_at(a@, i as int) * w
                + next * (0x1_0000_0000 * w)) by (nonlinear_arith)
                requires
                    low + limb_at(b@, i as int) + borrow == limb_at(a@, i as int) + next
                        * 0x1_0000_0000,
            ;
        }
        out.push(low);
        borrow = next;
        i += 1;
    }
    proof {
        lemma_value_bound(out@);
        assert(borrow == 0) by (nonlinear_arith)
            requires
                borrow <= 1,
                limbs_value(out@) < radix_pow(n as nat),
                limbs_value(out@) + limbs_value(b@) == limbs_value(a@) + borrow * radix_pow(
                    n as nat,
                ),
                limbs_value(a@) >= limbs_value(b@),
        ;
    }
    out
}

/// Multiplies a limb sequence by a single limb.
pub(crate) fn mul_limbs_small(a: &Vec<u32>, m: u32) -> (out: Vec<u32>)
    ensures
        limbs_value(out@) == limbs_value(a@) * m,
{
    let mut out: Vec<u32> = Vec::new();
    let mut carry: u64 = 0;
    let mut i: usize = 0;
    assert(low_value(a@, 0) * m == 0) by (nonlinear_arith)
        requires
            low_value(a@, 0) == 0,
    ;
    while i < a.len()
        invariant
            i <= a.len(),
            out.len() == i,
            carry < RADIX,
            limbs_value(out@) + carry * radix_pow(i as nat) == low_value(a@, i as int) * m,
        decreases a.len() - i,
    {
        let limb: u64 = a[i] as u64;
        assert(limb * (m as u64) + carry <= 0xffff_ffff * 0xffff_ffff + 0xffff_ffff)
            by (nonlinear_arith)
            requires
                limb <= 0xffff_ffff,
                m <= 0xffff_ffff,
                carry <= 0xffff_ffff,
        ;
        let x: u64 = limb * (m as u64) + carry;
        let low: u32 = (x % RADIX) as u32;
        let high: u64 = x / RADIX;
        proof {
            let w = radix_pow(i as nat);
            lemma_value_push(out@, low);
            lemma_low_value_step(a@, i as int);
            assert(radix_pow((i + 1) as nat) == 0x1_0000_0000 * w);
            assert(low * w + high * (0x1_0000_0000 * w) == (limb * m) * w + carry * w)
                by (nonlinear_arith)
                requires
                    low + high * 0x1_0000_0000 == limb * m + carry,
            ;
            assert((low_value(a@, i as int) + limb * w) * m == low_value(a@, i as int) * m + (limb
                * m) * w) by (nonlinear_arith);
        }
        out.push(low);
        carry = high;
        i += 1;
    }
    proof {
        lemma_value_push(out@, carry as u32);
    }
    out.push(carry as u32);
    out
}

/// How one number stands to another.
#[derive(Clone, Copy, PartialEq, Eq, Structural, Debug)]
pub(crate) enum Relation {
    Below,
    Same,
    Above,
}

/// The relation in which `x` stands to `y`.
pub(crate) open spec fn relation_of(x: nat, y: nat) -> Relation {
    if x < y {
        Relation::Below
    } else if x == y {
        Relation::Same
    } else {
        Relation::Above
    }
}

pub(crate) proof fn lemma_radix_pow_monotone(m: nat, n: nat)
    requires
        m <= n,
    ensures
        radix_pow(m) <= radix_pow(n),
    decreases n,
{
    if m < n {
        lemma_radix_pow_monotone(m, (n - 1) as nat);
        lemma_radix_pow_positive((n - 1) as nat);
        assert(radix_pow((n - 1) as nat) <= 0x1_0000_0000 * radix_pow((n - 1) as nat))
            by (nonlinear_arith);
    }
}

/// A number splits into its lowest `i` limbs and the limbs above them.
pub(crate) proof fn lemma_value_split(limbs: Seq<u32>, i: int)
    requires
        0 <= i <= limbs.len(),
    ensures
        limbs_value(limbs) == low_value(limbs, i) + radix_pow(i as nat) * limbs_value(
            limbs.skip(i),
        ),
    decreases limbs.len() - i,
{
    if i == limbs.len() {
        assert(limbs.skip(i) =~= Seq::<u32>::empty());
        assert(radix_pow(i as nat) * limbs_value(limbs.skip(i)) == 0) by (nonlinear_arith)
            requires
                limbs_value(limbs.skip(i)) == 0,
        ;
    } else {
        lemma_value_split(limbs, i + 1);
        lemma_low_value_step(limbs, i);
        let upper = limbs.skip(i);
        assert(upper.drop_first() =~= limbs.skip(i + 1));
        assert(upper[0] == limbs[i]);
        let w = radix_pow(i as nat);
        let rest = limbs_value(limbs.skip(i + 1));
        assert(radix_pow((i + 1) as nat) == 0x1_0000_0000 * w);
        assert(w * (limbs[i] as nat + 0x1_0000_0000 * rest) == limbs[i] * w + (0x1_0000_0000 * w)
            * rest) by (nonlinear_arith);
    }
}

/// Among equally long sequences that agree above position `i`, the limb at `i` decides.
pub(crate) proof fn lemma_deciding_limb(a: Seq<u32>, b: Seq<u32>, i: int)
    requires
        a.len() == b.len(),
        0 <= i < a.len(),
        a.skip(i + 1) == b.skip(i + 1),
        a[i] < b[i],
    ensures
        limbs_value(a) < limbs_value(b),
{
    lemma_value_split(a, i);
    lemma_value_split(b, i);
    lemma_value_bound(a.take(i));
    let w = radix_pow(i as nat);
    assert(low_value(a, i) < w) by {
        if i == 0 {
            lemma_radix_pow_positive(0);
        }
    }
    let a_up = a.skip(i);
    let b_up = b.skip(i);
    assert(a_up.drop_first() =~= a.skip(i + 1));
    assert(b_up.drop_first() =~= b.skip(i + 1));
    assert(limbs_value(a_up) + 1 <= limbs_value(b_up));
    assert(low_value(a, i) + w * limbs_value(a_up) < low_value(b, i) + w * limbs_value(b_up))
        by (nonlinear_arith)
        requires
            low_value(a, i) < w,
            limbs_value(a_up) + 1 <= limbs_value(b_up),
    ;
}

/// A canonical sequence with fewer limbs denotes a smaller number.
pub(crate) proof fn lemma_shorter_is_smaller(a: Seq<u32>, b: Seq<u32>)
    requires
        canonical(b),
        a.len() < b.len(),
    ensures
        limbs_value(a) < limbs_value(b),
{
    lemma_value_bound(a);
    lemma_radix_pow_monotone(a.len(), (b.len() - 1) as nat);
    lemma_canonical_lower_bound(b);
}

/// Decides how the number of one canonical sequence stands to that of another.
pub(crate) fn relate_limbs(a: &Vec<u32>, b: &Vec<u32>) -> (rel: Relation)
    requires
        canonical(a@),
        canonical(b@),
    ensures
        rel == relation_of(limbs_value(a@), limbs_value(b@)),
{
    if a.len() < b.len() {
        proof {
            lemma_shorter_is_smaller(a@, b@);
        }
        return Relation::Below;
    }
    if a.len() > b.len() {
        proof {
            lemma_shorter_is_smaller(b@, a@);
        }
        return Relation::Above;
    }
    let mut i: usize = a.len();
    while i > 0
        invariant
            i <= a.len(),
            a.len() == b.len(),
            a@.skip(i as int) =~= b@.skip(i as int),
        decreases i,
    {
        i -= 1;
        if a[i] < b[i] {
            proof {
                lemma_deciding_limb(a@, b@, i as int);
            }
            return Relation::Below;
        }
        if a[i] > b[i] {
            proof {
                lemma_deciding_limb(b@, a@, i as int);
            }
            return Relation::Above;
        }
        assert(a@.skip(i as int) =~= seq![a@[i as int]] + a@.skip(i + 1));
        assert(b@.skip(i as int) =~= seq![b@[i as int]] + b@.skip(i + 1));
    }
    assert(a@ =~= a@.skip(0));
    assert(b@ =~= b@.skip(0));
    Relation::Same
}

} // verus!
