use wasm_core::fp_ops::{f32_convert_i64_s, f64_convert_i64_s};
use wasm_core::int_ops;
use wasm_core::value::Value;

#[test]
fn i32_bit_counts() {
    assert_eq!(int_ops::i32_clz(0), Value::I32(32));
    assert_eq!(int_ops::i32_clz(1), Value::I32(31));
    assert_eq!(int_ops::i32_clz(-1), Value::I32(0));
    assert_eq!(int_ops::i32_ctz(0), Value::I32(32));
    assert_eq!(int_ops::i32_ctz(40), Value::I32(3));
    assert_eq!(int_ops::i32_popcnt(0), Value::I32(0));
    assert_eq!(int_ops::i32_popcnt(-1), Value::I32(32));
    assert_eq!(int_ops::i32_popcnt(0x0f0f), Value::I32(8));
}

#[test]
fn i64_bit_counts() {
    assert_eq!(int_ops::i64_clz(0), Value::I64(64));
    assert_eq!(int_ops::i64_clz(1), Value::I64(63));
    assert_eq!(int_ops::i64_ctz(0), Value::I64(64));
    assert_eq!(int_ops::i64_ctz(1 << 40), Value::I64(40));
    assert_eq!(int_ops::i64_popcnt(-1), Value::I64(64));
    assert_eq!(int_ops::i64_popcnt(5), Value::I64(2));
}

#[test]
fn sums_differences_and_products_wrap() {
    assert_eq!(int_ops::i32_add(i32::MAX, 1), Value::I32(i32::MIN));
    assert_eq!(int_ops::i32_sub(i32::MIN, 1), Value::I32(i32::MAX));
    assert_eq!(int_ops::i32_mul(0x10000, 0x10000), Value::I32(0));
    assert_eq!(int_ops::i32_mul(-3, 5), Value::I32(-15));
    assert_eq!(int_ops::i64_add(i64::MAX, 1), Value::I64(i64::MIN));
    assert_eq!(int_ops::i64_sub(i64::MIN, 1), Value::I64(i64::MAX));
    assert_eq!(int_ops::i64_mul(1 << 32, 1 << 32), Value::I64(0));
}

#[test]
fn subtraction_undoes_addition() {
    for (a, b) in [(7, 9), (i32::MAX, i32::MAX), (i32::MIN, -1)] {
        let sum = int_ops::i32_add(a, b).get_i32().unwrap();
        assert_eq!(int_ops::i32_sub(sum, b), Value::I32(a));
    }
}

#[test]
fn divisions_round_towards_zero() {
    assert_eq!(int_ops::i32_div_s(-7, 2), Value::I32(-3));
    assert_eq!(int_ops::i32_div_s(7, -2), Value::I32(-3));
    assert_eq!(int_ops::i32_div_s(-7, -2), Value::I32(3));
    assert_eq!(int_ops::i32_rem_s(-7, 2), Value::I32(-1));
    assert_eq!(int_ops::i32_rem_s(7, -2), Value::I32(1));
    assert_eq!(int_ops::i32_rem_s(i32::MIN, -1), Value::I32(0));
    assert_eq!(int_ops::i32_div_u(-1, 2), Value::I32(i32::MAX));
    assert_eq!(int_ops::i32_rem_u(-1, 10), Value::I32(5));
    assert_eq!(int_ops::i64_div_s(-7, 2), Value::I64(-3));
    assert_eq!(int_ops::i64_rem_s(-7, 2), Value::I64(-1));
    assert_eq!(int_ops::i64_rem_s(i64::MIN, -1), Value::I64(0));
    assert_eq!(int_ops::i64_div_u(-1, 2), Value::I64(i64::MAX));
    assert_eq!(int_ops::i64_rem_u(-1, 10), Value::I64(5));
}

#[test]
fn bitwise_instructions() {
    assert_eq!(int_ops::i32_and(12, 10), Value::I32(8));
    assert_eq!(int_ops::i32_or(12, 10), Value::I32(14));
    assert_eq!(int_ops::i32_xor(12, 10), Value::I32(6));
    assert_eq!(int_ops::i64_and(12, 10), Value::I64(8));
    assert_eq!(int_ops::i64_or(12, 10), Value::I64(14));
    assert_eq!(int_ops::i64_xor(12, 10), Value::I64(6));
}

#[test]
fn shift_counts_are_taken_modulo_the_width() {
    assert_eq!(int_ops::i32_shl(1, 33), Value::I32(2));
    assert_eq!(int_ops::i32_shl(1, 31), Value::I32(i32::MIN));
    assert_eq!(int_ops::i32_shr_u(-1, 28), Value::I32(15));
    assert_eq!(int_ops::i32_shr_s(-16, 2), Value::I32(-4));
    assert_eq!(int_ops::i64_shl(1, 65), Value::I64(2));
    assert_eq!(int_ops::i64_shr_u(-1, 60), Value::I64(15));
    assert_eq!(int_ops::i64_shr_s(-16, 2), Value::I64(-4));
}

#[test]
fn rotations_undo_each_other() {
    assert_eq!(int_ops::i32_rotl(0x8000_0001u32 as i32, 1), Value::I32(3));
    assert_eq!(int_ops::i32_rotr(3, 1), Value::I32(0x8000_0001u32 as i32));
    assert_eq!(int_ops::i64_rotl(i64::MIN | 1, 1), Value::I64(3));
    assert_eq!(int_ops::i64_rotr(3, 1), Value::I64(i64::MIN | 1));
    for k in [0, 1, 31, 32, -1] {
        let turned = int_ops::i32_rotl(0x1234_5678, k).get_i32().unwrap();
        assert_eq!(int_ops::i32_rotr(turned, k), Value::I32(0x1234_5678));
        let turned = int_ops::i64_rotr(0x1234_5678_9abc, k as i64).get_i64().unwrap();
        assert_eq!(int_ops::i64_rotl(turned, k as i64), Value::I64(0x1234_5678_9abc));
    }
}

#[test]
fn comparisons_with_and_without_sign() {
    assert_eq!(int_ops::i32_eqz(0), Value::I32(1));
    assert_eq!(int_ops::i32_eqz(4), Value::I32(0));
    assert_eq!(int_ops::i32_eq(4, 4), Value::I32(1));
    assert_eq!(int_ops::i32_ne(4, 4), Value::I32(0));
    assert_eq!(int_ops::i32_lt_s(-1, 1), Value::I32(1));
    assert_eq!(int_ops::i32_lt_u(-1, 1), Value::I32(0));
    assert_eq!(int_ops::i32_le_s(1, 1), Value::I32(1));
    assert_eq!(int_ops::i32_le_u(2, 1), Value::I32(0));
    assert_eq!(int_ops::i32_gt_s(-1, 1), Value::I32(0));
    assert_eq!(int_ops::i32_gt_u(-1, 1), Value::I32(1));
    assert_eq!(int_ops::i32_ge_s(1, 1), Value::I32(1));
    assert_eq!(int_ops::i32_ge_u(0, -1), Value::I32(0));
    assert_eq!(int_ops::i64_eqz(0), Value::I32(1));
    assert_eq!(int_ops::i64_eq(4, 4), Value::I32(1));
    assert_eq!(int_ops::i64_ne(4, 4), Value::I32(0));
    assert_eq!(int_ops::i64_lt_s(-1, 1), Value::I32(1));
    assert_eq!(int_ops::i64_lt_u(-1, 1), Value::I32(0));
    assert_eq!(int_ops::i64_le_s(1, 1), Value::I32(1));
    assert_eq!(int_ops::i64_le_u(2, 1), Value::I32(0));
    assert_eq!(int_ops::i64_gt_s(-1, 1), Value::I32(0));
    assert_eq!(int_ops::i64_gt_u(-1, 1), Value::I32(1));
    assert_eq!(int_ops::i64_ge_s(1, 1), Value::I32(1));
    assert_eq!(int_ops::i64_ge_u(0, -1), Value::I32(0));
}

#[test]
fn cutting_down_undoes_extension() {
    assert_eq!(int_ops::i64_extend_i32_u(-1), Value::I64(0xffff_ffff));
    assert_eq!(int_ops::i64_extend_i32_s(-1), Value::I64(-1));
    assert_eq!(int_ops::i32_wrap_i64(0x1_0000_0002), Value::I32(2));
    assert_eq!(int_ops::i32_wrap_i64(0xffff_ffff), Value::I32(-1));
    assert_eq!(int_ops::i32_wrap_i64(-1), Value::I32(-1));
}

#[test]
fn values_are_read_as_integers() {
    assert_eq!(Value::default(), Value::Undef);
    assert_eq!(Value::Undef.get_i32().unwrap(), 0);
    assert_eq!(Value::Undef.get_i64().unwrap(), 0);
    assert_eq!(Value::I32(-5).get_i32().unwrap(), -5);
    assert_eq!(Value::I64(-5).get_i64().unwrap(), -5);
    assert!(Value::I64(1).get_i32().is_err());
    assert!(Value::I32(1).get_i64().is_err());
    assert!(Value::F32(0).get_i32().is_err());
    assert!(Value::F64(0).get_i64().is_err());
}

#[test]
fn integers_convert_to_themselves() {
    assert_eq!(Value::Undef.cast_to_i64(), 0);
    assert_eq!(Value::I32(-7).cast_to_i64(), -7);
    assert_eq!(Value::I64(i64::MIN).cast_to_i64(), i64::MIN);
}

#[test]
fn f32_truncation_agrees_with_the_hardware() {
    for x in [
        0.0f32, -0.0, 0.99, -0.99, 1.0, -1.0, 1.5, -1.5, 3.14159, 1e10, -1e10, 8388607.5,
        16777216.0, 9.2233715e18, -9.223372e18, 1e-40,
    ] {
        assert_eq!(f32_convert_i64_s(x.to_bits()), Some(x as i64));
        assert_eq!(Value::F32(x.to_bits()).cast_to_i64(), x as i64);
    }
}

#[test]
fn f64_truncation_agrees_with_the_hardware() {
    for x in [
        0.0f64, -0.0, 0.99, -0.99, 1.0, -1.0, 1.5, -1.5, 3.14159, 1e10, -1e10, 4503599627370495.5,
        9007199254740993.0, 9.223372036854775e18, -9.223372036854775808e18, 1e-310,
    ] {
        assert_eq!(f64_convert_i64_s(x.to_bits()), Some(x as i64));
        assert_eq!(Value::F64(x.to_bits()).cast_to_i64(), x as i64);
    }
}

#[test]
fn floats_without_a_truncation_are_zero() {
    for x in [f32::NAN, f32::INFINITY, f32::NEG_INFINITY, 9.3e18, -9.3e18, f32::MAX] {
        assert_eq!(f32_convert_i64_s(x.to_bits()), None);
        assert_eq!(Value::F32(x.to_bits()).cast_to_i64(), 0);
    }
    for x in [f64::NAN, f64::INFINITY, f64::NEG_INFINITY, 9.223372036854775808e18, -9.3e18] {
        assert_eq!(f64_convert_i64_s(x.to_bits()), None);
        assert_eq!(Value::F64(x.to_bits()).cast_to_i64(), 0);
    }
}
