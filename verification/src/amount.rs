//! Unsigned amounts of unbounded size.

use crate::limbs::{
    add_limbs, canonical, lemma_canonical_lower_bound, lemma_radix_pow_monotone,
    lemma_radix_pow_positive, limbs_value, mul_limbs_small, radix_pow, relate_limbs, relation_of,
    sub_limbs, trim, Relation, RADIX,
};
use vstd::arithmetic::div_mod::{lemma_fundamental_div_mod, lemma_fundamental_div_mod_converse};
use vstd::prelude::*;

verus! {

/// A non-negative quantity of an asset, of any size.
///
/// Its view is the natural number it stands for.
#[derive(PartialEq, Eq, Debug)]
pub struct Amount {
    limbs: Vec<u32>,
}

/// The number that a sequence of bytes stands for, the most significant byte first.
pub open spec fn be_bytes_value(bytes: Seq<u8>) -> nat
    decreases bytes.len(),
{
    if bytes.len() == 0 {
        0
    } else {
        be_bytes_value(bytes.drop_last()) * 256 + bytes.last() as nat
    }
}

/// Whether a sequence of bytes is the shortest that stands for its number: it does
/// not begin with a zero byte.
pub open spec fn shortest_bytes(bytes: Seq<u8>) -> bool {
    bytes.len() > 0 ==> bytes[0] != 0
}

impl View for Amount {
    type V = nat;

    closed spec fn view(&self) -> nat {
        limbs_value(self.limbs@)
    }
}

impl Clone for Amount {
    fn clone(&self) -> (copy: Self)
        ensures
            copy@ == self@,
    {
        proof {
            use_type_invariant(self);
        }
        let mut limbs: Vec<u32> = Vec::new();
        let mut i: usize = 0;
        while i < self.limbs.len()
            invariant
                i <= self.limbs.len(),
                limbs@ =~= self.limbs@.take(i as int),
            decreases self.limbs.len() - i,
        {
            limbs.push(self.limbs[i]);
            i += 1;
        }
        assert(limbs@ =~= self.limbs@);
        Amount { limbs }
    }
}

impl Amount {
    #[verifier::type_invariant]
    spec fn well_formed(&self) -> bool {
        canonical(self.limbs@)
    }

    fn from_limbs(limbs: Vec<u32>) -> (amount: Amount)
        ensures
            amount@ == limbs_value(limbs@),
    {
        Amount { limbs: trim(limbs) }
    }

    /// The amount zero.
    pub fn zero() -> (amount: Amount)
        ensures
            amount@ == 0,
    {
        Amount { limbs: Vec::new() }
    }

    /// The amount that a 64-bit number stands for.
    pub fn from_u64(value: u64) -> (amount: Amount)
        ensures
            amount@ == value,
    {
        let mut limbs: Vec<u32> = Vec::new();
        limbs.push((value % RADIX) as u32);
        limbs.push((value / RADIX) as u32);
        proof {
            let s = limbs@;
            assert(s.drop_first().drop_first() =~= Seq::<u32>::empty());
            assert(limbs_value(s.drop_first()) == s[1] as nat + 0x1_0000_0000 * limbs_value(
                s.drop_first().drop_first(),
            ));
        }
        Amount::from_limbs(limbs)
    }

    /// The amount that a 128-bit number stands for.
    pub fn from_u128(value: u128) -> (amount: Amount)
        ensures
            amount@ == value,
    {
        let radix: u128 = 0x1_0000_0000;
        let mut limbs: Vec<u32> = Vec::new();
        let mut rest: u128 = value;
        limbs.push((rest % radix) as u32);
        rest = rest / radix;
        limbs.push((rest % radix) as u32);
        rest = rest / radix;
        limbs.push((rest % radix) as u32);
        rest = rest / radix;
        limbs.push(rest as u32);
        proof {
            let s0 = limbs@;
            let s1 = s0.drop_first();
            let s2 = s1.drop_first();
            let s3 = s2.drop_first();
            assert(s3.drop_first() =~= Seq::<u32>::empty());
            assert(limbs_value(s3) == s3[0] as nat + 0x1_0000_0000 * limbs_value(s3.drop_first()));
            assert(limbs_value(s2) == s2[0] as nat + 0x1_0000_0000 * limbs_value(s3));
            assert(limbs_value(s1) == s1[0] as nat + 0x1_0000_0000 * limbs_value(s2));
        }
        Amount::from_limbs(limbs)
    }

    /// The amount as a 64-bit number, where it fits.
    pub fn to_u64(&self) -> (value: Option<u64>)
        ensures
            self@ <= u64::MAX ==> value == Some(self@ as u64),
            self@ > u64::MAX ==> value.is_none(),
    {
        proof {
            use_type_invariant(self);
        }
        let n = self.limbs.len();
        if n > 2 {
            proof {
                assert(radix_pow(2) == 0x1_0000_0000 * 0x1_0000_0000) by {
                    assert(radix_pow(0) == 1);
                    assert(radix_pow(1) == 0x1_0000_0000 * radix_pow(0));
                    assert(radix_pow(2) == 0x1_0000_0000 * radix_pow(1));
                }
                lemma_canonical_lower_bound(self.limbs@);
                lemma_radix_pow_monotone(2, (n - 1) as nat);
            }
            None
        } else if n == 2 {
            proof {
                let upper = self.limbs@.drop_first();
                assert(upper.drop_first() =~= Seq::<u32>::empty());
                assert(limbs_value(upper.drop_first()) == 0);
                assert(limbs_value(upper) == upper[0] as nat + 0x1_0000_0000 * limbs_value(
                    upper.drop_first(),
                ));
            }
            Some(self.limbs[0] as u64 + RADIX * (self.limbs[1] as u64))
        } else if n == 1 {
            proof {
                assert(self.limbs@.drop_first() =~= Seq::<u32>::empty());
                assert(limbs_value(self.limbs@.drop_first()) == 0);
            }
            Some(self.limbs[0] as u64)
        } else {
            Some(0)
        }
    }

    /// Whether the amount is zero.
    pub fn is_zero(&self) -> (zero: bool)
        ensures
            zero == (self@ == 0),
    {
        proof {
            use_type_invariant(self);
            if self.limbs@.len() > 0 {
                lemma_canonical_lower_bound(self.limbs@);
                lemma_radix_pow_positive((self.limbs@.len() - 1) as nat);
            }
        }
        self.limbs.len() == 0
    }

    fn relate(&self, other: &Amount) -> (rel: Relation)
        ensures
            rel == relation_of(self@, other@),
    {
        proof {
            use_type_invariant(self);
            use_type_invariant(other);
        }
        relate_limbs(&self.limbs, &other.limbs)
    }

    /// Whether two amounts are the same number.
    pub fn same(&self, other: &Amount) -> (same: bool)
        ensures
            same == (self@ == other@),
    {
        self.relate(other) == Relation::Same
    }

    /// Whether this amount is smaller than the other.
    pub fn lt(&self, other: &Amount) -> (smaller: bool)
        ensures
            smaller == (self@ < other@),
    {
        self.relate(other) == Relation::Below
    }

    /// Whether this amount is at most the other.
    pub fn le(&self, other: &Amount) -> (at_most: bool)
        ensures
            at_most == (self@ <= other@),
    {
        self.relate(other) != Relation::Above
    }

    /// The sum of two amounts.
    pub fn add(&self, other: &Amount) -> (sum: Amount)
        ensures
            sum@ == self@ + other@,
    {
        Amount::from_limbs(add_limbs(&self.limbs, &other.limbs))
    }

    /// The difference of two amounts, where the other does not exceed this one.
    pub fn checked_sub(&self, other: &Amount) -> (difference: Option<Amount>)
        ensures
            self@ >= other@ ==> difference.is_some() && difference.unwrap()@ == self@ - other@,
            self@ < other@ ==> difference.is_none(),
    {
        if other.le(self) {
            Some(Amount::from_limbs(sub_limbs(&self.limbs, &other.limbs)))
        } else {
            None
        }
    }

    /// The difference of two amounts, or zero where the other exceeds this one.
    pub fn saturating_sub(&self, other: &Amount) -> (difference: Amount)
        ensures
            difference@ == if self@ >= other@ {
                self@ - other@
            } else {
                0
            },
    {
        if other.le(self) {
            Amount::from_limbs(sub_limbs(&self.limbs, &other.limbs))
        } else {
            Amount::zero()
        }
    }

    /// This amount times a single limb.
    fn times_limb(&self, factor: u32) -> (product: Amount)
        ensures
            product@ == self@ * factor,
    {
        Amount::from_limbs(mul_limbs_small(&self.limbs, factor))
    }

    /// This amount moved up by one limb position, with `limb` taking the lowest place.
    fn shift_in(&self, limb: u32) -> (shifted: Amount)
        ensures
            shifted@ == self@ * 0x1_0000_0000 + limb,
    {
        let mut limbs: Vec<u32> = Vec::new();
        limbs.push(limb);
        let mut i: usize = 0;
        while i < self.limbs.len()
            invariant
                i <= self.limbs.len(),
                limbs@ =~= seq![limb] + self.limbs@.take(i as int),
            decreases self.limbs.len() - i,
        {
            limbs.push(self.limbs[i]);
            i += 1;
        }
        assert(limbs@.drop_first() =~= self.limbs@);
        Amount::from_limbs(limbs)
    }

    /// The product of two amounts.
    pub fn mul(&self, other: &Amount) -> (product: Amount)
        ensures
            product@ == self@ * other@,
    {
        let mut acc = Amount::zero();
        let mut j: usize = other.limbs.len();
        assert(other.limbs@.skip(j as int) =~= Seq::<u32>::empty());
        assert(self@ * 0 == 0) by (nonlinear_arith);
        while j > 0
            invariant
                j <= other.limbs.len(),
                acc@ == self@ * limbs_value(other.limbs@.skip(j as int)),
            decreases j,
        {
            j -= 1;
            let limb: u32 = other.limbs[j];
            let part = self.times_limb(limb);
            let shifted = acc.shift_in(0);
            proof {
                let upper = other.limbs@.skip(j as int);
                assert(upper.drop_first() =~= other.limbs@.skip(j + 1));
                assert(upper[0] == limb);
                let rest = limbs_value(other.limbs@.skip(j + 1));
                assert(self@ * (limb as nat + 0x1_0000_0000 * rest) == (self@ * rest)
                    * 0x1_0000_0000 + self@ * limb) by (nonlinear_arith);
            }
            acc = shifted.add(&part);
        }
        assert(other.limbs@.skip(0) =~= other.limbs@);
        acc
    }

    /// The largest digit whose multiple of `divisor` does not exceed this amount.
    fn quotient_digit(&self, divisor: &Amount) -> (digit: u32)
        requires
            divisor@ > 0,
            self@ < divisor@ * 0x1_0000_0000,
        ensures
            digit * divisor@ <= self@ < (digit + 1) * divisor@,
    {
        let mut low: u64 = 0;
        let mut high: u64 = RADIX;
        assert(0 * divisor@ == 0) by (nonlinear_arith);
        assert(0x1_0000_0000 * divisor@ == divisor@ * 0x1_0000_0000) by (nonlinear_arith);
        while high - low > 1
            invariant
                low < high <= RADIX,
                low * divisor@ <= self@ < high * divisor@,
            decreases high - low,
        {
            let mid: u64 = low + (high - low) / 2;
            let multiple = divisor.times_limb(mid as u32);
            assert(divisor@ * (mid as u32) == mid * divisor@) by (nonlinear_arith)
                requires
                    mid < 0x1_0000_0000,
            ;
            if multiple.le(self) {
                low = mid;
            } else {
                high = mid;
            }
        }
        low as u32
    }

    /// The quotient and remainder of this amount by a non-zero divisor.
    pub fn div_rem(&self, divisor: &Amount) -> (result: (Amount, Amount))
        requires
            divisor@ != 0,
        ensures
            result.0@ == self@ / divisor@,
            result.1@ == self@ % divisor@,
    {
        let mut quotient = Amount::zero();
        let mut remainder = Amount::zero();
        let mut i: usize = self.limbs.len();
        assert(self.limbs@.skip(i as int) =~= Seq::<u32>::empty());
        assert(0 * divisor@ + 0 == 0) by (nonlinear_arith);
        while i > 0
            invariant
                i <= self.limbs.len(),
                divisor@ > 0,
                limbs_value(self.limbs@.skip(i as int)) == quotient@ * divisor@ + remainder@,
                remainder@ < divisor@,
            decreases i,
        {
            i -= 1;
            let limb: u32 = self.limbs[i];
            let current = remainder.shift_in(limb);
            assert(current@ < divisor@ * 0x1_0000_0000) by (nonlinear_arith)
                requires
                    current@ == remainder@ * 0x1_0000_0000 + limb,
                    remainder@ < divisor@,
                    limb < 0x1_0000_0000,
            ;
            let digit = current.quotient_digit(divisor);
            let multiple = divisor.times_limb(digit);
            assert(divisor@ * digit == digit * divisor@) by (nonlinear_arith);
            let next_remainder = current.checked_sub(&multiple).unwrap();
            let next_quotient = quotient.shift_in(digit);
            proof {
                let upper = self.limbs@.skip(i as int);
                assert(upper.drop_first() =~= self.limbs@.skip(i + 1));
                assert(upper[0] == limb);
                let q = quotient@;
                let d = divisor@;
                let r = remainder@;
                assert(limb as nat + 0x1_0000_0000 * (q * d + r) == (q * 0x1_0000_0000 + digit) * d
                    + (r * 0x1_0000_0000 + limb - digit * d)) by (nonlinear_arith);
                assert(next_remainder@ < d) by (nonlinear_arith)
                    requires
                        next_remainder@ == current@ - digit * d,
                        current@ < (digit + 1) * d,
                ;
            }
            quotient = next_quotient;
            remainder = next_remainder;
        }
        proof {
            assert(self.limbs@.skip(0) =~= self.limbs@);
            lemma_fundamental_div_mod_converse(
                self@ as int,
                divisor@ as int,
                quotient@ as int,
                remainder@ as int,
            );
        }
        (quotient, remainder)
    }

    /// The amount that a sequence of bytes stands for, the most significant byte
    /// first. Zero bytes at the front are allowed; no bytes at all stand for zero.
    pub fn from_bytes_be(bytes: &Vec<u8>) -> (amount: Amount)
        ensures
            amount@ == be_bytes_value(bytes@),
    {
        let mut acc = Amount::zero();
        let mut i: usize = 0;
        assert(bytes@.take(0) =~= Seq::<u8>::empty());
        while i < bytes.len()
            invariant
                i <= bytes.len(),
                acc@ == be_bytes_value(bytes@.take(i as int)),
            decreases bytes.len() - i,
        {
            let byte: u8 = bytes[i];
            proof {
                let longer = bytes@.take(i + 1);
                assert(longer.drop_last() =~= bytes@.take(i as int));
                assert(longer.last() == byte);
            }
            acc = acc.times_limb(256).add(&Amount::from_u64(byte as u64));
            i += 1;
        }
        assert(bytes@.take(bytes.len() as int) =~= bytes@);
        acc
    }

    /// The shortest sequence of bytes that stands for the amount, the most
    /// significant byte first; no bytes at all for zero.
    pub fn to_bytes_be(&self) -> (bytes: Vec<u8>)
        ensures
            be_bytes_value(bytes@) == self@,
            shortest_bytes(bytes@),
            self@ == 0 <==> bytes@.len() == 0,
        decreases self@,
    {
        if self.is_zero() {
            return Vec::new();
        }
        let (rest, byte) = self.div_rem(&Amount::from_u64(256));
        let low: u8 = match byte.to_u64() {
            Some(b) => b as u8,
            None => 0,
        };
        proof {
            lemma_fundamental_div_mod(self@ as int, 256);
        }
        let mut bytes = rest.to_bytes_be();
        let ghost shorter = bytes@;
        bytes.push(low);
        proof {
            assert(bytes@.drop_last() =~= shorter);
            if shorter.len() > 0 {
                assert(bytes@[0] == shorter[0]);
            }
        }
        bytes
    }
}

} // verus!
