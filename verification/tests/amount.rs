use vault_accounting::amount::Amount;

fn pow10(exponent: u32) -> Amount {
    let ten = Amount::from_u64(10);
    let mut result = Amount::from_u64(1);
    for _ in 0..exponent {
        result = result.mul(&ten);
    }
    result
}

#[test]
fn amount_round_trips_through_u64() {
    assert_eq!(Amount::from_u64(0).to_u64(), Some(0));
    assert_eq!(Amount::from_u64(12345).to_u64(), Some(12345));
    assert_eq!(Amount::from_u64(u64::MAX).to_u64(), Some(u64::MAX));
    assert_eq!(Amount::from_u64(1 << 32).to_u64(), Some(1 << 32));
}

#[test]
fn amount_above_u64_has_no_u64() {
    let big = Amount::from_u64(u64::MAX).add(&Amount::from_u64(1));
    assert_eq!(big.to_u64(), None);
    assert_eq!(big, Amount::from_u128(1u128 << 64));
}

#[test]
fn amount_zero_is_zero() {
    assert!(Amount::zero().is_zero());
    assert!(Amount::from_u64(0).is_zero());
    assert!(!Amount::from_u64(1).is_zero());
    assert_eq!(Amount::zero(), Amount::from_u64(0));
    assert!(Amount::from_u128(0).is_zero());
}

#[test]
fn amount_from_u128_matches_arithmetic() {
    let value: u128 = 340_282_366_920_938_463_463_374_607_431_768_211_455;
    let expected = Amount::from_u64(u64::MAX)
        .mul(&Amount::from_u128(1u128 << 64))
        .add(&Amount::from_u64(u64::MAX));
    assert_eq!(Amount::from_u128(value), expected);
    assert_eq!(Amount::from_u128(77).to_u64(), Some(77));
}

#[test]
fn amount_add_carries_across_limbs() {
    let a = Amount::from_u64(0xffff_ffff);
    let b = Amount::from_u64(1);
    assert_eq!(a.add(&b).to_u64(), Some(0x1_0000_0000));
    let c = Amount::from_u128(u128::MAX);
    let sum = c.add(&Amount::from_u64(1));
    assert_eq!(sum.to_bytes_be(), {
        let mut bytes = vec![0u8; 17];
        bytes[0] = 1;
        bytes
    });
}

#[test]
fn amount_add_is_commutative_and_keeps_zero() {
    let a = Amount::from_u128(123_456_789_012_345_678_901_234_567_890);
    let b = Amount::from_u64(987_654_321);
    assert_eq!(a.add(&b), b.add(&a));
    assert_eq!(a.add(&Amount::zero()), a);
}

#[test]
fn amount_checked_sub_borrows_across_limbs() {
    let a = Amount::from_u64(0x1_0000_0000);
    let b = Amount::from_u64(1);
    assert_eq!(a.checked_sub(&b), Some(Amount::from_u64(0xffff_ffff)));
    assert_eq!(a.checked_sub(&a), Some(Amount::zero()));
    assert_eq!(b.checked_sub(&a), None);
    let big = Amount::from_u128(1u128 << 100);
    assert_eq!(
        big.checked_sub(&Amount::from_u64(1)),
        Some(Amount::from_u128((1u128 << 100) - 1))
    );
}

#[test]
fn amount_saturating_sub_stops_at_zero() {
    let a = Amount::from_u64(5);
    let b = Amount::from_u64(7);
    assert_eq!(b.saturating_sub(&a).to_u64(), Some(2));
    assert_eq!(a.saturating_sub(&b), Amount::zero());
    assert_eq!(a.saturating_sub(&a), Amount::zero());
}

#[test]
fn amount_mul_gives_exact_products() {
    let a = Amount::from_u64(u64::MAX);
    let square = a.mul(&a);
    assert_eq!(square, Amount::from_u128((u64::MAX as u128) * (u64::MAX as u128)));
    assert_eq!(a.mul(&Amount::zero()), Amount::zero());
    assert_eq!(Amount::zero().mul(&a), Amount::zero());
    assert_eq!(a.mul(&Amount::from_u64(1)), a);
    assert_eq!(
        Amount::from_u64(123_456_789).mul(&Amount::from_u64(987_654_321)).to_u64(),
        Some(121_932_631_112_635_269)
    );
}

#[test]
fn amount_mul_beyond_u128() {
    let ten_to_30 = pow10(30);
    let ten_to_60 = ten_to_30.mul(&ten_to_30);
    assert_eq!(ten_to_60, pow10(60));
    let (quotient, remainder) = ten_to_60.div_rem(&ten_to_30);
    assert_eq!(quotient, ten_to_30);
    assert!(remainder.is_zero());
    assert_eq!(ten_to_30, Amount::from_u128(1_000_000_000_000_000_000_000_000_000_000));
}

#[test]
fn amount_div_rem_gives_quotient_and_remainder() {
    let (q, r) = Amount::from_u64(100).div_rem(&Amount::from_u64(3));
    assert_eq!(q.to_u64(), Some(33));
    assert_eq!(r.to_u64(), Some(1));
    let (q, r) = Amount::from_u64(5).div_rem(&Amount::from_u64(7));
    assert_eq!(q.to_u64(), Some(0));
    assert_eq!(r.to_u64(), Some(5));
    let (q, r) = Amount::zero().div_rem(&Amount::from_u64(7));
    assert!(q.is_zero());
    assert!(r.is_zero());
    let (q, r) = Amount::from_u64(u64::MAX).div_rem(&Amount::from_u64(u64::MAX));
    assert_eq!(q.to_u64(), Some(1));
    assert!(r.is_zero());
}

#[test]
fn amount_div_rem_by_a_wide_divisor() {
    let dividend: u128 = 0xfedc_ba98_7654_3210_0123_4567_89ab_cdef;
    let divisor: u128 = 0x1_0000_0001_0000_0001;
    let (q, r) = Amount::from_u128(dividend).div_rem(&Amount::from_u128(divisor));
    assert_eq!(q, Amount::from_u128(dividend / divisor));
    assert_eq!(r, Amount::from_u128(dividend % divisor));
    let rebuilt = q.mul(&Amount::from_u128(divisor)).add(&r);
    assert_eq!(rebuilt, Amount::from_u128(dividend));
}

#[test]
fn amount_div_rem_matches_u128_on_many_values() {
    let mut x: u128 = 0x9e37_79b9_7f4a_7c15_f39c_c060_5ced_c834;
    for round in 0..200u32 {
        x = x
            .wrapping_mul(0x5851_f42d_4c95_7f2d_1405_7b7e_f767_814f)
            .wrapping_add(0x1234_5678_9abc_def1);
        let a = x >> (round % 97);
        let b = (x.rotate_left(41) >> (round % 113)) | 1;
        let (q, r) = Amount::from_u128(a).div_rem(&Amount::from_u128(b));
        assert_eq!(q, Amount::from_u128(a / b));
        assert_eq!(r, Amount::from_u128(a % b));
        let low = a & 0xffff_ffff_ffff_ffff;
        let other = b & 0xffff_ffff_ffff_ffff;
        assert_eq!(
            Amount::from_u128(low).mul(&Amount::from_u128(other)),
            Amount::from_u128(low * other)
        );
        assert_eq!(
            Amount::from_u128(a >> 1).add(&Amount::from_u128(b >> 1)),
            Amount::from_u128((a >> 1) + (b >> 1))
        );
        assert_eq!(Amount::from_u128(a).lt(&Amount::from_u128(b)), a < b);
        assert_eq!(Amount::from_u128(a).le(&Amount::from_u128(b)), a <= b);
        assert_eq!(
            Amount::from_u128(a).checked_sub(&Amount::from_u128(b)),
            a.checked_sub(b).map(Amount::from_u128)
        );
    }
}

#[test]
fn amount_comparisons_order_by_value() {
    let small = Amount::from_u64(u64::MAX);
    let large = Amount::from_u128(1u128 << 64);
    assert!(small.lt(&large));
    assert!(small.le(&large));
    assert!(!large.lt(&small));
    assert!(!large.le(&small));
    assert!(small.le(&small));
    assert!(!small.lt(&small));
    assert!(small.same(&Amount::from_u64(u64::MAX)));
    assert!(!small.same(&large));
    assert!(Amount::from_u64(0x1_0000_0000).lt(&Amount::from_u64(0x2_0000_0000)));
    assert!(Amount::from_u64(0x1_0000_0001).lt(&Amount::from_u64(0x1_0000_0002)));
    assert!(!Amount::from_u64(0x2_0000_0000).lt(&Amount::from_u64(0x1_ffff_ffff)));
}

#[test]
fn amount_from_bytes_reads_big_endian() {
    assert_eq!(Amount::from_bytes_be(&vec![]).to_u64(), Some(0));
    assert_eq!(Amount::from_bytes_be(&vec![0x01, 0x02]).to_u64(), Some(258));
    assert_eq!(Amount::from_bytes_be(&vec![0, 0, 0x01, 0x02]).to_u64(), Some(258));
    assert_eq!(
        Amount::from_bytes_be(&vec![0xde, 0xad, 0xbe, 0xef, 0x01]).to_u64(),
        Some(0xde_adbe_ef01)
    );
    let sixteen = Amount::from_bytes_be(&vec![0xff; 16]);
    assert_eq!(sixteen, Amount::from_u128(u128::MAX));
}

#[test]
fn amount_to_bytes_writes_the_shortest_form() {
    assert_eq!(Amount::zero().to_bytes_be(), Vec::<u8>::new());
    assert_eq!(Amount::from_u64(1).to_bytes_be(), vec![1]);
    assert_eq!(Amount::from_u64(255).to_bytes_be(), vec![255]);
    assert_eq!(Amount::from_u64(256).to_bytes_be(), vec![1, 0]);
    assert_eq!(Amount::from_u64(0x0102_0304_0506).to_bytes_be(), vec![1, 2, 3, 4, 5, 6]);
    assert_eq!(
        Amount::from_u128(u128::MAX).to_bytes_be(),
        vec![0xff; 16]
    );
}

#[test]
fn amount_bytes_round_trip() {
    let bytes: Vec<u8> = (1..=40u8).collect();
    let amount = Amount::from_bytes_be(&bytes);
    assert_eq!(amount.to_bytes_be(), bytes);
    let with_zeros = {
        let mut padded = vec![0u8, 0u8];
        padded.extend_from_slice(&bytes);
        padded
    };
    assert_eq!(Amount::from_bytes_be(&with_zeros), amount);
    assert_eq!(Amount::from_bytes_be(&with_zeros).to_bytes_be(), bytes);
}

#[test]
fn amount_clone_is_equal() {
    let amount = pow10(40);
    assert_eq!(amount.clone(), amount);
    assert!(amount.clone().same(&amount));
}
