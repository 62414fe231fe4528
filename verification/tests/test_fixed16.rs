use alan::activation::softmax::softmax;
use alan::numeric::fixed16::SCALE;
use alan::numeric::{count_as, count_grid};
use alan::tensor::{Batch, Tensor};
use alan::x16;
use alan::Numeric;

#[test]
fn constants_of_the_fixed_point_format() {
    assert_eq!(SCALE, 1000);
    assert_eq!(x16::zero(), x16(0));
    assert_eq!(x16::one(), x16(1000));
    assert_eq!(x16::tiny(), x16(1));
    assert_eq!(x16::neginf(), x16(i16::MIN));
    assert_eq!(<x16 as Numeric>::zero(), x16(0));
    assert_eq!(<x16 as Numeric>::one(), x16(1000));
    assert_eq!(<x16 as Numeric>::tiny(), x16(1));
    assert_eq!(<x16 as Numeric>::neginf(), x16(-32768));
}

#[test]
fn addition_and_subtraction_saturate() {
    assert_eq!(x16(1500).plus(x16(250)), x16(1750));
    assert_eq!(x16(30000).plus(x16(30000)), x16(32767));
    assert_eq!(x16(-30000).plus(x16(-30000)), x16(-32768));
    assert_eq!(x16(1500).minus(x16(250)), x16(1250));
    assert_eq!(x16(-30000).minus(x16(30000)), x16(-32768));
    assert_eq!(x16(30000).minus(x16(-30000)), x16(32767));
    assert_eq!(x16(5).negated(), x16(-5));
    assert_eq!(x16(i16::MIN).negated(), x16(32767));
    assert_eq!(Numeric::add(x16(1), x16(2)), x16(3));
    assert_eq!(Numeric::sub(x16(1), x16(2)), x16(-1));
    assert_eq!(Numeric::neg(x16(7)), x16(-7));
}

#[test]
fn multiplication_rescales_and_rounds_towards_zero() {
    // 1.5 * 0.5 = 0.75
    assert_eq!(x16(1500).times(x16(500)), x16(750));
    // 0.003 * 0.5 = 0.0015, which rounds to 0.001
    assert_eq!(x16(3).times(x16(500)), x16(1));
    // -0.003 * 0.5 = -0.0015, which rounds to -0.001
    assert_eq!(x16(-3).times(x16(500)), x16(-1));
    assert_eq!(x16(3).times(x16(-500)), x16(-1));
    assert_eq!(x16(-3).times(x16(-500)), x16(1));
    // one is the identity
    assert_eq!(x16(-1234).times(x16(1000)), x16(-1234));
    // 30 * 30 saturates
    assert_eq!(x16(30000).times(x16(30000)), x16(32767));
    assert_eq!(x16(30000).times(x16(-30000)), x16(-32768));
    assert_eq!(x16(i16::MIN).times(x16(i16::MIN)), x16(32767));
    assert_eq!(Numeric::mul(x16(2000), x16(3000)), x16(6000));
}

#[test]
fn division_rescales_and_rounds_towards_zero() {
    // 1 / 3 = 0.333
    assert_eq!(x16(1000).over(x16(3000)), x16(333));
    assert_eq!(x16(-1000).over(x16(3000)), x16(-333));
    assert_eq!(x16(1000).over(x16(-3000)), x16(-333));
    assert_eq!(x16(-1000).over(x16(-3000)), x16(333));
    // 0.75 / 0.5 = 1.5
    assert_eq!(x16(750).over(x16(500)), x16(1500));
    // 30 / 0.001 saturates
    assert_eq!(x16(30000).over(x16(1)), x16(32767));
    assert_eq!(x16(-30000).over(x16(1)), x16(-32768));
    assert_eq!(Numeric::div(x16(1000), x16(4000)), x16(250));
}

#[test]
fn division_by_zero_saturates_by_sign() {
    assert_eq!(x16(1).over(x16(0)), x16(32767));
    assert_eq!(x16(-1).over(x16(0)), x16(-32768));
    assert_eq!(x16(0).over(x16(0)), x16(0));
}

#[test]
fn comparisons_follow_the_raw_integers() {
    assert!(Numeric::lt(x16(-1), x16(0)));
    assert!(!Numeric::lt(x16(0), x16(0)));
    assert!(Numeric::le(x16(0), x16(0)));
    assert!(!Numeric::le(x16(1), x16(0)));
    assert!(Numeric::eq(x16(5), x16(5)));
    assert!(!Numeric::eq(x16(5), x16(6)));
}

#[test]
fn exponential_values() {
    assert_eq!(x16(0).exp(), x16(1000));
    assert_eq!(x16(1).exp(), x16(1001));
    assert_eq!(x16(-1).exp(), x16(999));
    assert_eq!(x16(1000).exp(), x16(2718));
    assert_eq!(x16(-1000).exp(), x16(367));
    assert_eq!(x16(500).exp(), x16(1648));
    assert_eq!(x16(2000).exp(), x16(7389));
    assert_eq!(x16(3000).exp(), x16(20085));
    assert_eq!(x16(-5000).exp(), x16(6));
    assert_eq!(Numeric::exp(x16(100)), x16(1105));
}

#[test]
fn exponential_saturates_and_vanishes() {
    assert_eq!(x16(3489).exp(), x16(32752));
    assert_eq!(x16(3490).exp(), x16(32767));
    assert_eq!(x16(i16::MAX).exp(), x16(32767));
    assert_eq!(x16(-6907).exp(), x16(1));
    assert_eq!(x16(-6908).exp(), x16(0));
    assert_eq!(x16(i16::MIN).exp(), x16(0));
}

#[test]
fn exponential_is_monotone() {
    let mut last = x16(i16::MIN).exp();
    let mut raw = i16::MIN;
    while raw < i16::MAX {
        raw += 1;
        let next = x16(raw).exp();
        assert!(last.0 <= next.0);
        last = next;
    }
}

#[test]
fn logarithm_values() {
    assert_eq!(x16(1000).log(), x16(0));
    assert_eq!(x16(2718).log(), x16(1000));
    assert_eq!(x16(2719).log(), x16(1001));
    assert_eq!(x16(500).log(), x16(-693));
    assert_eq!(x16(2000).log(), x16(694));
    assert_eq!(x16(10000).log(), x16(2303));
    assert_eq!(x16(1).log(), x16(-6907));
    assert_eq!(x16(32767).log(), x16(3490));
    assert_eq!(Numeric::log(x16(7389)), x16(2000));
}

#[test]
fn logarithm_of_what_is_not_positive_is_the_smallest_value() {
    assert_eq!(x16(0).log(), x16(i16::MIN));
    assert_eq!(x16(-5).log(), x16(i16::MIN));
    assert_eq!(x16(i16::MIN).log(), x16(i16::MIN));
}

#[test]
fn logarithm_is_the_least_value_whose_exponential_reaches() {
    for y in [1i16, 2, 10, 367, 999, 1000, 1001, 5000, 32000] {
        let r = x16(y).log();
        assert!(r.exp().0 >= y);
        assert!(x16(r.0 - 1).exp().0 < y);
    }
}

#[test]
fn random_values_lie_between_zero_and_one() {
    let mut seen_two = false;
    let first = x16::random();
    for _ in 0..1000 {
        let r = x16::random();
        assert!(0 <= r.0 && r.0 < 1000);
        if r != first {
            seen_two = true;
        }
        let q = <x16 as Numeric>::random();
        assert!(0 <= q.0 && q.0 < 1000);
    }
    assert!(seen_two);
}

#[test]
fn counting_adds_ones() {
    assert_eq!(count_as::<x16>(0), x16(0));
    assert_eq!(count_as::<x16>(4), x16(4000));
    assert_eq!(count_as::<x16>(40), x16(32767));
    assert_eq!(count_grid::<x16>(3, 3), x16(9000));
    assert_eq!(count_grid::<x16>(0, 3), x16(0));
    assert_eq!(count_grid::<x16>(3, 0), x16(0));
}

#[test]
fn zero_tensor_and_batch() {
    let t = Tensor::<x16, 3>::zero();
    assert_eq!(t, Tensor([x16(0), x16(0), x16(0)]));
    let b = Batch::<2, x16, 3>::zero();
    assert_eq!(b, Batch([t, t]));
}

#[test]
fn tensor_and_batch_entries() {
    let mut t = Tensor([x16(1), x16(2), x16(3)]);
    assert_eq!(t.get(1), x16(2));
    t.set(1, x16(20));
    assert_eq!(t, Tensor([x16(1), x16(20), x16(3)]));
    let mut b = Batch([t, Tensor([x16(4), x16(5), x16(6)])]);
    assert_eq!(b.get(1, 2), x16(6));
    b.set(1, 0, x16(40));
    assert_eq!(b, Batch([t, Tensor([x16(40), x16(5), x16(6)])]));
}

#[test]
fn tensors_and_batches_can_be_indexed() {
    let t = Tensor([x16(1), x16(2), x16(3)]);
    assert_eq!(t[0], x16(1));
    assert_eq!(t[2], x16(3));
    let b = Batch([t, Tensor([x16(4), x16(5), x16(6)])]);
    assert_eq!(b[0], t);
    assert_eq!(b[1][1], x16(5));
}

#[test]
fn fixed_point_softmax_sums_to_one_within_a_tiny_per_entry() {
    let batch = Batch([
        Tensor([x16(1000), x16(2000), x16(3000)]),
        Tensor([x16(0), x16(0), x16(0)]),
        Tensor([x16(32767), x16(-32768), x16(32767)]),
        Tensor([x16(-32768), x16(-32768), x16(-32768)]),
    ]);
    let out = softmax(&batch);
    // exp(-2) = 0.135, exp(-1) = 0.367, exp(0) = 1: denominator 1.502
    assert_eq!(out.0[0], Tensor([x16(89), x16(244), x16(665)]));
    assert_eq!(out.0[1], Tensor([x16(333), x16(333), x16(333)]));
    assert_eq!(out.0[2], Tensor([x16(500), x16(0), x16(500)]));
    assert_eq!(out.0[3], Tensor([x16(333), x16(333), x16(333)]));
    for b in 0..4 {
        let mut sum: i32 = 0;
        for i in 0..3 {
            sum += out.get(b, i).0 as i32;
        }
        assert!(1000 - 3 < sum && sum <= 1000);
    }
}
