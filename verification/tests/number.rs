use std::cmp::Ordering;
use xan::float::Float64;
use xan::number::{apply_op, floor_divide, DynamicNumber};

fn float(x: f64) -> Float64 {
    Float64::from_bits(x.to_bits())
}

fn native(x: Float64) -> f64 {
    f64::from_bits(x.to_bits())
}

fn float_add(a: Float64, b: Float64) -> Float64 {
    float(native(a) + native(b))
}

fn float_sub(a: Float64, b: Float64) -> Float64 {
    float(native(a) - native(b))
}

fn float_mul(a: Float64, b: Float64) -> Float64 {
    float(native(a) * native(b))
}

fn float_div(a: Float64, b: Float64) -> Float64 {
    float(native(a) / native(b))
}

fn format_float(x: Float64) -> String {
    native(x).to_string()
}

#[test]
fn test_dynamic_number_inc_dec() {
    assert_eq!(DynamicNumber::Integer(1).inc(float_add), DynamicNumber::Integer(2));
    assert_eq!(
        DynamicNumber::Float(float(1.5)).inc(float_add),
        DynamicNumber::Float(float(2.5))
    );
    assert_eq!(DynamicNumber::Integer(1).dec(float_add), DynamicNumber::Integer(0));
    assert_eq!(
        DynamicNumber::Float(float(1.5)).dec(float_add),
        DynamicNumber::Float(float(0.5))
    );
    assert_eq!(
        DynamicNumber::Float(float(1.5)).dec(float_add).inc(float_add),
        DynamicNumber::Float(float(1.5))
    );
}

#[test]
fn whole_operands_give_a_whole_result() {
    let a = DynamicNumber::Integer(6);
    let b = DynamicNumber::Integer(-4);
    assert!(matches!(a.add(b, float_add), DynamicNumber::Integer(2)));
    assert!(matches!(a.sub(b, float_sub), DynamicNumber::Integer(10)));
    assert!(matches!(a.mul(b, float_mul), DynamicNumber::Integer(-24)));
}

#[test]
fn one_float_operand_gives_a_float_result() {
    let whole = DynamicNumber::Integer(6);
    let half = DynamicNumber::Float(float(0.5));
    for (lhs, rhs) in [(whole, half), (half, whole), (half, half)] {
        assert!(matches!(lhs.add(rhs, float_add), DynamicNumber::Float(_)));
        assert!(matches!(lhs.sub(rhs, float_sub), DynamicNumber::Float(_)));
        assert!(matches!(lhs.mul(rhs, float_mul), DynamicNumber::Float(_)));
    }
    assert_eq!(whole.add(half, float_add), DynamicNumber::Float(float(6.5)));
    assert_eq!(half.sub(whole, float_sub), DynamicNumber::Float(float(-5.5)));
    assert_eq!(whole.mul(half, float_mul), DynamicNumber::Float(float(3.0)));
}

#[test]
fn promotion_does_not_depend_on_grouping() {
    let a = DynamicNumber::Integer(1);
    let b = DynamicNumber::Float(float(2.0));
    let c = DynamicNumber::Integer(3);
    let left = a.add(b, float_add).add(c, float_add);
    let right = a.add(b.add(c, float_add), float_add);
    assert!(matches!(left, DynamicNumber::Float(_)));
    assert!(matches!(right, DynamicNumber::Float(_)));
    assert_eq!(left, right);
}

#[test]
fn division_always_gives_a_float() {
    let r = DynamicNumber::Integer(7).div(DynamicNumber::Integer(2), float_div);
    assert!(matches!(r, DynamicNumber::Float(_)));
    assert_eq!(r, DynamicNumber::Float(float(3.5)));
    let r = DynamicNumber::Integer(8).div(DynamicNumber::Integer(2), float_div);
    assert!(matches!(r, DynamicNumber::Float(_)));
    let r = DynamicNumber::Float(float(1.0)).div(DynamicNumber::Integer(4), float_div);
    assert_eq!(r, DynamicNumber::Float(float(0.25)));
}

#[test]
fn idiv_floors_the_quotient() {
    let idiv = |a: DynamicNumber, b: DynamicNumber| a.idiv(b, float_div);
    assert!(matches!(
        idiv(DynamicNumber::Integer(7), DynamicNumber::Integer(2)),
        DynamicNumber::Integer(3)
    ));
    assert!(matches!(
        idiv(DynamicNumber::Integer(-7), DynamicNumber::Integer(2)),
        DynamicNumber::Integer(-4)
    ));
    assert!(matches!(
        idiv(DynamicNumber::Integer(7), DynamicNumber::Integer(-2)),
        DynamicNumber::Integer(-4)
    ));
    assert!(matches!(
        idiv(DynamicNumber::Integer(-7), DynamicNumber::Integer(-2)),
        DynamicNumber::Integer(3)
    ));
    assert!(matches!(
        idiv(DynamicNumber::Float(float(7.5)), DynamicNumber::Integer(2)),
        DynamicNumber::Integer(3)
    ));
    assert!(matches!(
        idiv(DynamicNumber::Integer(-7), DynamicNumber::Float(float(2.0))),
        DynamicNumber::Integer(-4)
    ));
    assert!(matches!(
        idiv(DynamicNumber::Float(float(1.0)), DynamicNumber::Float(float(0.3))),
        DynamicNumber::Integer(3)
    ));
}

#[test]
fn idiv_by_zero_follows_the_floating_point_quotient() {
    let idiv = |a: i64, b: i64| DynamicNumber::Integer(a).idiv(DynamicNumber::Integer(b), float_div);
    assert!(matches!(idiv(1, 0), DynamicNumber::Integer(i64::MAX)));
    assert!(matches!(idiv(-1, 0), DynamicNumber::Integer(i64::MIN)));
    assert!(matches!(idiv(0, 0), DynamicNumber::Integer(0)));
}

#[test]
fn floor_divide_is_exact_and_saturates() {
    assert_eq!(floor_divide(7, 2), 3);
    assert_eq!(floor_divide(-7, 2), -4);
    assert_eq!(floor_divide(6, 3), 2);
    assert_eq!(floor_divide(-6, 3), -2);
    assert_eq!(floor_divide(0, 5), 0);
    assert_eq!(floor_divide(i64::MIN, -1), i64::MAX);
    assert_eq!(floor_divide(i64::MIN, 1), i64::MIN);
    assert_eq!(floor_divide(i64::MAX, -1), -i64::MAX);
    assert_eq!(floor_divide(9007199254740993, 1), 9007199254740993);
    for a in [-9i64, -8, -1, 0, 1, 8, 9] {
        for b in [-4i64, -3, -1, 1, 3, 4] {
            assert_eq!(floor_divide(a, b), a.div_euclid(b) - if b < 0 && a.rem_euclid(b) != 0 { 1 } else { 0 });
            assert_eq!(floor_divide(a, b), (a as f64 / b as f64).floor() as i64);
        }
    }
}

#[test]
fn numbers_compare_across_kinds() {
    assert_eq!(DynamicNumber::Integer(3), DynamicNumber::Float(float(3.0)));
    assert_eq!(DynamicNumber::Float(float(3.0)), DynamicNumber::Integer(3));
    assert_ne!(DynamicNumber::Integer(3), DynamicNumber::Float(float(3.5)));
    assert_ne!(DynamicNumber::Integer(3), DynamicNumber::Integer(4));
    assert_eq!(DynamicNumber::Integer(0), DynamicNumber::Float(float(-0.0)));
    assert_ne!(DynamicNumber::Float(float(f64::NAN)), DynamicNumber::Float(float(f64::NAN)));
    assert!(DynamicNumber::Integer(3) < DynamicNumber::Float(float(3.5)));
    assert!(DynamicNumber::Float(float(2.5)) < DynamicNumber::Integer(3));
    assert!(DynamicNumber::Integer(-1) < DynamicNumber::Integer(0));
    assert!(DynamicNumber::Integer(4) > DynamicNumber::Float(float(3.5)));
    assert_eq!(
        DynamicNumber::Integer(1).partial_cmp(&DynamicNumber::Float(float(f64::NAN))),
        None
    );
    assert_eq!(
        DynamicNumber::Integer(1).partial_cmp(&DynamicNumber::Integer(1)),
        Some(Ordering::Equal)
    );
    // Beyond 53 bits two whole numbers differ where their floats do not.
    assert_ne!(DynamicNumber::Integer(9007199254740993), DynamicNumber::Integer(9007199254740992));
    assert_eq!(
        DynamicNumber::Integer(9007199254740993),
        DynamicNumber::Float(float(9007199254740992.0))
    );
}

#[test]
fn sign_is_taken_without_arithmetic() {
    assert!(matches!(DynamicNumber::Integer(-3).abs(), DynamicNumber::Integer(3)));
    assert!(matches!(DynamicNumber::Integer(3).abs(), DynamicNumber::Integer(3)));
    assert!(matches!(DynamicNumber::Integer(3).neg(), DynamicNumber::Integer(-3)));
    assert_eq!(DynamicNumber::Float(float(-1.5)).abs(), DynamicNumber::Float(float(1.5)));
    assert_eq!(DynamicNumber::Float(float(1.5)).neg(), DynamicNumber::Float(float(-1.5)));
}

#[test]
fn add_assign_adds_in_place() {
    let mut n = DynamicNumber::Integer(1);
    n.add_assign(DynamicNumber::Integer(2), float_add);
    assert!(matches!(n, DynamicNumber::Integer(3)));
    n.add_assign(DynamicNumber::Float(float(0.5)), float_add);
    assert_eq!(n, DynamicNumber::Float(float(3.5)));
}

#[test]
fn apply_op_picks_the_operation_by_kind() {
    let whole = |a: i64, b: i64| a * 100 + b;
    let floating = |_: Float64, _: Float64| float(-1.0);
    let r = apply_op(DynamicNumber::Integer(1), DynamicNumber::Integer(2), whole, floating);
    assert!(matches!(r, DynamicNumber::Integer(102)));
    let seen = |a: Float64, b: Float64| float(native(a) * 100.0 + native(b));
    let r = apply_op(DynamicNumber::Integer(1), DynamicNumber::Float(float(2.0)), whole, seen);
    assert_eq!(r, DynamicNumber::Float(float(102.0)));
    let r = apply_op(DynamicNumber::Float(float(1.0)), DynamicNumber::Integer(2), whole, seen);
    assert_eq!(r, DynamicNumber::Float(float(102.0)));
}

#[test]
fn numbers_are_written_as_text() {
    assert_eq!(DynamicNumber::Integer(-12).to_string(&format_float), "-12");
    assert_eq!(DynamicNumber::Float(float(1.5)).to_string(&format_float), "1.5");
}

#[test]
fn mixed_comparisons_agree_with_the_machine() {
    let wholes = [0i64, 1, -1, 3, 9007199254740992, 9007199254740993, -9007199254740993, i64::MAX, i64::MIN];
    let floats = [0.0f64, -0.0, 1.0, 2.5, 3.0, 9007199254740992.0, -9007199254740992.0, 9.3e18, -9.3e18, f64::NAN, f64::INFINITY];
    for a in wholes {
        for x in floats {
            let whole = DynamicNumber::Integer(a);
            let other = DynamicNumber::Float(float(x));
            assert_eq!(whole == other, (a as f64) == x, "{} == {}", a, x);
            assert_eq!(other == whole, x == (a as f64), "{} == {}", x, a);
            assert_eq!(whole.partial_cmp(&other), (a as f64).partial_cmp(&x), "{} ? {}", a, x);
            assert_eq!(other.partial_cmp(&whole), x.partial_cmp(&(a as f64)), "{} ? {}", x, a);
        }
        for b in wholes {
            assert_eq!(DynamicNumber::Integer(a) == DynamicNumber::Integer(b), a == b);
            assert_eq!(
                DynamicNumber::Integer(a).partial_cmp(&DynamicNumber::Integer(b)),
                Some(a.cmp(&b))
            );
        }
    }
}
