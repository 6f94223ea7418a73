//! Abstract ALU semantics for the verifier.
//!
//! `compute_alu_result(dst, op, rhs)` takes the verifier's view of the
//! destination register and of the right-hand operand (another register,
//! or a constant for immediate operands) and returns the view of the
//! destination after the operation: exact value when both sides are
//! constant, unsigned interval, and tnum. Whatever cannot be represented
//! precisely widens to the full range.
use vstd::prelude::*;

use crate::bpf_verifier::state::ScalarValue;
use crate::bpf_verifier::tnum::{
    lemma_tnum_add_sound, lemma_tnum_bitwise_sound, lemma_tnum_shift_sound, lemma_tnum_sub_sound,
    tnum_add_spec, tnum_and_spec, tnum_arshift_spec, tnum_lshift_spec, tnum_mul_spec,
    tnum_or_spec, tnum_rshift_spec, tnum_sub_spec, tnum_xor_spec, TnumValue,
};
use crate::bytecode::opcode::AluOp;
use crate::bytecode::semantics::alu_value;
use vstd::arithmetic::div_mod::{
    lemma_div_is_ordered, lemma_div_is_ordered_by_denominator, lemma_mod_decreases,
    lemma_mod_division_less_than_divisor,
};
use vstd::arithmetic::mul::{lemma_mul_inequality, lemma_mul_upper_bound};

verus! {

/// The full-range interval with the given exact value and tnum.
pub open spec fn widened(tnum: TnumValue) -> ScalarValue {
    ScalarValue { value: None, min: 0, max: u64::MAX, tnum }
}

pub open spec fn unknown_tnum() -> TnumValue {
    TnumValue { value: 0, mask: u64::MAX }
}

pub open spec fn both_values(a: ScalarValue, b: ScalarValue, f: spec_fn(u64, u64) -> u64) -> Option<u64> {
    match (a.value, b.value) {
        (Some(x), Some(y)) => Some(f(x, y)),
        _ => None,
    }
}

pub open spec fn add_spec(a: ScalarValue, b: ScalarValue) -> ScalarValue {
    let tnum = tnum_add_spec(a.tnum, b.tnum);
    if a.min + b.min <= u64::MAX && a.max + b.max <= u64::MAX {
        ScalarValue {
            value: both_values(a, b, |x: u64, y: u64| (x + y) as u64),
            min: (a.min + b.min) as u64,
            max: (a.max + b.max) as u64,
            tnum,
        }
    } else {
        widened(tnum)
    }
}

pub open spec fn sub_spec(a: ScalarValue, b: ScalarValue) -> ScalarValue {
    let tnum = tnum_sub_spec(a.tnum, b.tnum);
    if a.min >= b.max && a.max >= b.min {
        ScalarValue {
            value: both_values(a, b, |x: u64, y: u64| (x - y) as u64),
            min: (a.min - b.max) as u64,
            max: (a.max - b.min) as u64,
            tnum,
        }
    } else {
        widened(tnum)
    }
}

pub open spec fn mul_spec(a: ScalarValue, b: ScalarValue) -> ScalarValue {
    let tnum = tnum_mul_spec(a.tnum, b.tnum);
    if a.min * b.min <= u64::MAX && a.max * b.max <= u64::MAX {
        ScalarValue {
            value: both_values(a, b, |x: u64, y: u64| x.wrapping_mul(y)),
            min: (a.min * b.min) as u64,
            max: (a.max * b.max) as u64,
            tnum,
        }
    } else {
        widened(tnum)
    }
}

pub open spec fn div_spec(a: ScalarValue, b: ScalarValue) -> ScalarValue {
    ScalarValue {
        value: match (a.value, b.value) {
            (Some(x), Some(y)) => if y == 0 {
                None
            } else {
                Some(x / y)
            },
            _ => None,
        },
        min: if b.max == 0 {
            0
        } else {
            a.min / b.max
        },
        max: if b.min == 0 {
            a.max
        } else {
            a.max / b.min
        },
        tnum: unknown_tnum(),
    }
}

pub open spec fn mod_spec(a: ScalarValue, b: ScalarValue) -> ScalarValue {
    ScalarValue {
        value: match (a.value, b.value) {
            (Some(x), Some(y)) => if y == 0 {
                None
            } else {
                Some(x % y)
            },
            _ => None,
        },
        min: 0,
        max: if b.max == 0 {
            0
        } else if (b.max - 1) as u64 <= a.max {
            (b.max - 1) as u64
        } else {
            a.max
        },
        tnum: unknown_tnum(),
    }
}

pub open spec fn and_spec(a: ScalarValue, b: ScalarValue) -> ScalarValue {
    ScalarValue {
        value: both_values(a, b, |x: u64, y: u64| x & y),
        min: 0,
        max: if a.max <= b.max {
            a.max
        } else {
            b.max
        },
        tnum: tnum_and_spec(a.tnum, b.tnum),
    }
}

pub open spec fn or_spec(a: ScalarValue, b: ScalarValue) -> ScalarValue {
    ScalarValue {
        value: both_values(a, b, |x: u64, y: u64| x | y),
        min: if a.min >= b.min {
            a.min
        } else {
            b.min
        },
        max: u64::MAX,
        tnum: tnum_or_spec(a.tnum, b.tnum),
    }
}

pub open spec fn xor_spec(a: ScalarValue, b: ScalarValue) -> ScalarValue {
    ScalarValue {
        value: both_values(a, b, |x: u64, y: u64| x ^ y),
        min: 0,
        max: u64::MAX,
        tnum: tnum_xor_spec(a.tnum, b.tnum),
    }
}

pub open spec fn lshift_spec(a: ScalarValue, b: ScalarValue) -> ScalarValue {
    match b.value {
        Some(shift) => {
            let s = shift & 63;
            if (a.max << s) >> s == a.max {
                ScalarValue {
                    value: match a.value {
                        Some(v) => Some(v << s),
                        None => None,
                    },
                    min: a.min << s,
                    max: a.max << s,
                    tnum: tnum_lshift_spec(a.tnum, s),
                }
            } else {
                widened(tnum_lshift_spec(a.tnum, s))
            }
        },
        None => widened(unknown_tnum()),
    }
}

pub open spec fn rshift_spec(a: ScalarValue, b: ScalarValue) -> ScalarValue {
    match b.value {
        Some(shift) => {
            let s = shift & 63;
            ScalarValue {
                value: match a.value {
                    Some(v) => Some(v >> s),
                    None => None,
                },
                min: a.min >> s,
                max: a.max >> s,
                tnum: tnum_rshift_spec(a.tnum, s),
            }
        },
        None => widened(unknown_tnum()),
    }
}

pub open spec fn arshift_spec(a: ScalarValue, b: ScalarValue) -> ScalarValue {
    match b.value {
        Some(shift) => {
            let s = shift & 63;
            ScalarValue {
                value: match a.value {
                    Some(v) => Some(((v as i64) >> s) as u64),
                    None => None,
                },
                min: 0,
                max: u64::MAX,
                tnum: tnum_arshift_spec(a.tnum, s),
            }
        },
        None => ScalarValue::spec_unknown(),
    }
}

pub open spec fn neg_spec(a: ScalarValue) -> ScalarValue {
    ScalarValue {
        value: match a.value {
            Some(v) => Some((0 - v) as u64),
            None => None,
        },
        min: 0,
        max: u64::MAX,
        tnum: unknown_tnum(),
    }
}

/// The verifier's view of `dst = op(dst, rhs)`.
pub open spec fn alu_result_spec(dst: ScalarValue, op: AluOp, rhs: ScalarValue) -> ScalarValue {
    match op {
        AluOp::Mov => rhs,
        AluOp::Add => add_spec(dst, rhs),
        AluOp::Sub => sub_spec(dst, rhs),
        AluOp::Mul => mul_spec(dst, rhs),
        AluOp::Div => div_spec(dst, rhs),
        AluOp::Mod => mod_spec(dst, rhs),
        AluOp::And => and_spec(dst, rhs),
        AluOp::Or => or_spec(dst, rhs),
        AluOp::Xor => xor_spec(dst, rhs),
        AluOp::Lsh => lshift_spec(dst, rhs),
        AluOp::Rsh => rshift_spec(dst, rhs),
        AluOp::Arsh => arshift_spec(dst, rhs),
        AluOp::Neg => neg_spec(dst),
        AluOp::End => ScalarValue::spec_unknown(),
    }
}

/// Compute the new scalar view after `dst = op(dst, rhs)`.
pub fn compute_alu_result(dst: ScalarValue, op: AluOp, rhs: ScalarValue) -> (r: ScalarValue)
    ensures
        r == alu_result_spec(dst, op, rhs),
{
    match op {
        AluOp::Mov => rhs,
        AluOp::Add => self::add(dst, rhs),
        AluOp::Sub => self::sub(dst, rhs),
        AluOp::Mul => self::mul(dst, rhs),
        AluOp::Div => div_unsigned(dst, rhs),
        AluOp::Mod => mod_unsigned(dst, rhs),
        AluOp::And => bitwise_and(dst, rhs),
        AluOp::Or => bitwise_or(dst, rhs),
        AluOp::Xor => bitwise_xor(dst, rhs),
        AluOp::Lsh => lshift(dst, rhs),
        AluOp::Rsh => rshift(dst, rhs),
        AluOp::Arsh => arshift(dst, rhs),
        AluOp::Neg => negate(dst),
        AluOp::End => ScalarValue::unknown(),
    }
}

/// The scalar view of an immediate operand, sign-extended to 64 bits.
pub fn scalar_from_imm(imm: i32) -> (r: ScalarValue)
    ensures
        r == ScalarValue::spec_constant(imm as i64 as u64),
{
    let v = imm as i64 as u64;
    ScalarValue { value: Some(v), min: v, max: v, tnum: TnumValue::constant(v) }
}

fn add(a: ScalarValue, b: ScalarValue) -> (r: ScalarValue)
    ensures
        r == add_spec(a, b),
{
    let tnum = a.tnum.add(b.tnum);
    let value = match (a.value, b.value) {
        (Some(x), Some(y)) => Some(((x as u128) + (y as u128)) as u64),
        _ => None,
    };
    match (a.min.checked_add(b.min), a.max.checked_add(b.max)) {
        (Some(min), Some(max)) => ScalarValue { value, min, max, tnum },
        _ => ScalarValue { value: None, min: 0, max: u64::MAX, tnum },
    }
}

fn sub(a: ScalarValue, b: ScalarValue) -> (r: ScalarValue)
    ensures
        r == sub_spec(a, b),
{
    let tnum = a.tnum.sub(b.tnum);
    let value = match (a.value, b.value) {
        (Some(x), Some(y)) => Some(((x as i128) - (y as i128)) as u64),
        _ => None,
    };
    if a.min >= b.max && a.max >= b.min {
        ScalarValue { value, min: a.min - b.max, max: a.max - b.min, tnum }
    } else {
        ScalarValue { value: None, min: 0, max: u64::MAX, tnum }
    }
}

fn mul(a: ScalarValue, b: ScalarValue) -> (r: ScalarValue)
    ensures
        r == mul_spec(a, b),
{
    let tnum = a.tnum.mul(b.tnum);
    let value = match (a.value, b.value) {
        (Some(x), Some(y)) => Some(x.wrapping_mul(y)),
        _ => None,
    };
    match (a.min.checked_mul(b.min), a.max.checked_mul(b.max)) {
        (Some(lo), Some(hi)) => ScalarValue { value, min: lo, max: hi, tnum },
        _ => ScalarValue { value: None, min: 0, max: u64::MAX, tnum },
    }
}

fn div_unsigned(a: ScalarValue, b: ScalarValue) -> (r: ScalarValue)
    ensures
        r == div_spec(a, b),
{
    let value = match (a.value, b.value) {
        (Some(x), Some(y)) => x.checked_div(y),
        _ => None,
    };
    let max = match a.max.checked_div(b.min) {
        Some(m) => m,
        None => a.max,
    };
    let min = match a.min.checked_div(b.max) {
        Some(m) => m,
        None => 0,
    };
    ScalarValue { value, min, max, tnum: TnumValue::unknown() }
}

fn mod_unsigned(a: ScalarValue, b: ScalarValue) -> (r: ScalarValue)
    ensures
        r == mod_spec(a, b),
{
    let value = match (a.value, b.value) {
        (Some(x), Some(y)) => x.checked_rem(y),
        _ => None,
    };
    let max = if b.max == 0 {
        0
    } else {
        let m = b.max - 1;
        if m <= a.max {
            m
        } else {
            a.max
        }
    };
    ScalarValue { value, min: 0, max, tnum: TnumValue::unknown() }
}

fn bitwise_and(a: ScalarValue, b: ScalarValue) -> (r: ScalarValue)
    ensures
        r == and_spec(a, b),
{
    let tnum = a.tnum.and(b.tnum);
    let value = match (a.value, b.value) {
        (Some(x), Some(y)) => Some(x & y),
        _ => None,
    };
    let max = if a.max <= b.max {
        a.max
    } else {
        b.max
    };
    ScalarValue { value, min: 0, max, tnum }
}

fn bitwise_or(a: ScalarValue, b: ScalarValue) -> (r: ScalarValue)
    ensures
        r == or_spec(a, b),
{
    let tnum = a.tnum.or(b.tnum);
    let value = match (a.value, b.value) {
        (Some(x), Some(y)) => Some(x | y),
        _ => None,
    };
    let min = if a.min >= b.min {
        a.min
    } else {
        b.min
    };
    ScalarValue { value, min, max: u64::MAX, tnum }
}

fn bitwise_xor(a: ScalarValue, b: ScalarValue) -> (r: ScalarValue)
    ensures
        r == xor_spec(a, b),
{
    let tnum = a.tnum.xor(b.tnum);
    let value = match (a.value, b.value) {
        (Some(x), Some(y)) => Some(x ^ y),
        _ => None,
    };
    ScalarValue { value, min: 0, max: u64::MAX, tnum }
}

fn lshift(a: ScalarValue, b: ScalarValue) -> (r: ScalarValue)
    ensures
        r == lshift_spec(a, b),
{
    match b.value {
        Some(shift) => {
            let s = (shift & 63) as u8;
            assert(shift & 63 < 64) by (bit_vector);
            let tnum = a.tnum.lshift(s);
            if (a.max << s) >> s == a.max {
                let value = match a.value {
                    Some(v) => Some(v << s),
                    None => None,
                };
                ScalarValue { value, min: a.min << s, max: a.max << s, tnum }
            } else {
                ScalarValue { value: None, min: 0, max: u64::MAX, tnum }
            }
        },
        None => ScalarValue { value: None, min: 0, max: u64::MAX, tnum: TnumValue::unknown() },
    }
}

fn rshift(a: ScalarValue, b: ScalarValue) -> (r: ScalarValue)
    ensures
        r == rshift_spec(a, b),
{
    match b.value {
        Some(shift) => {
            let s = (shift & 63) as u8;
            assert(shift & 63 < 64) by (bit_vector);
            let tnum = a.tnum.rshift(s);
            let value = match a.value {
                Some(v) => Some(v >> s),
                None => None,
            };
            ScalarValue { value, min: a.min >> s, max: a.max >> s, tnum }
        },
        None => ScalarValue { value: None, min: 0, max: u64::MAX, tnum: TnumValue::unknown() },
    }
}

fn arshift(a: ScalarValue, b: ScalarValue) -> (r: ScalarValue)
    ensures
        r == arshift_spec(a, b),
{
    match b.value {
        Some(shift) => {
            let s = (shift & 63) as u8;
            assert(shift & 63 < 64) by (bit_vector);
            let tnum = a.tnum.arshift(s);
            let value = match a.value {
                Some(v) => Some(((v as i64) >> s) as u64),
                None => None,
            };
            ScalarValue { value, min: 0, max: u64::MAX, tnum }
        },
        None => ScalarValue::unknown(),
    }
}

fn negate(a: ScalarValue) -> (r: ScalarValue)
    ensures
        r == neg_spec(a),
{
    let value = match a.value {
        Some(v) => Some((0i128 - (v as i128)) as u64),
        None => None,
    };
    ScalarValue { value, min: 0, max: u64::MAX, tnum: TnumValue::unknown() }
}

/// The conditions under which the abstract ALU is sound for the concrete
/// right operand `y`: no division or modulo by zero.
pub open spec fn alu_sound_conditions(dst: ScalarValue, op: AluOp, rhs: ScalarValue, y: u64) -> bool {
    (op is Div || op is Mod) ==> y != 0
}

proof fn lemma_unknown_tnum_has(x: u64)
    ensures
        unknown_tnum().has(x),
        unknown_tnum().wf(),
{
    assert(x & !0xffff_ffff_ffff_ffffu64 == 0 && 0u64 & 0xffff_ffff_ffff_ffffu64 == 0)
        by (bit_vector);
}

/// Soundness of the abstract ALU: if `x` is admitted by `dst` and `y` by
/// `rhs`, the concrete 64-bit result of `op` is admitted by the abstract
/// result, which is well-formed. Multiplication is covered by
/// `lemma_alu_mul_range_sound` and the byte swap yields the unknown scalar.
pub proof fn lemma_alu_sound(dst: ScalarValue, op: AluOp, rhs: ScalarValue, x: u64, y: u64)
    requires
        dst.wf(),
        rhs.wf(),
        dst.has(x),
        rhs.has(y),
        alu_sound_conditions(dst, op, rhs, y),
        !(op is Mul),
        !(op is End),
    ensures
        alu_result_spec(dst, op, rhs).wf(),
        alu_result_spec(dst, op, rhs).has(alu_value(op, x, y, 0).unwrap()),
{
    lemma_unknown_tnum_has(x);
    let r = alu_result_spec(dst, op, rhs);
    let z = alu_value(op, x, y, 0).unwrap();
    lemma_unknown_tnum_has(z);
    match op {
        AluOp::Mov => {},
        AluOp::Add => {
            lemma_tnum_add_sound(dst.tnum, rhs.tnum, x, y);
        },
        AluOp::Sub => {
            lemma_tnum_sub_sound(dst.tnum, rhs.tnum, x, y);
        },
        AluOp::Div => {
            if rhs.max != 0 {
                lemma_div_is_ordered(dst.min as int, x as int, rhs.max as int);
                lemma_div_is_ordered_by_denominator(x as int, y as int, rhs.max as int);
            }
            if rhs.min != 0 {
                lemma_div_is_ordered(x as int, dst.max as int, y as int);
                lemma_div_is_ordered_by_denominator(dst.max as int, rhs.min as int, y as int);
            } else {
                lemma_div_is_ordered_by_denominator(x as int, 1, y as int);
            }
        },
        AluOp::Mod => {
            lemma_mod_division_less_than_divisor(x as int, y as int);
            lemma_mod_decreases(x as nat, y as nat);
        },
        AluOp::And => {
            lemma_tnum_bitwise_sound(dst.tnum, rhs.tnum, x, y);
            assert((x & y) <= x && (x & y) <= y) by (bit_vector);
        },
        AluOp::Or => {
            lemma_tnum_bitwise_sound(dst.tnum, rhs.tnum, x, y);
            assert((x | y) >= x && (x | y) >= y) by (bit_vector);
        },
        AluOp::Xor => {
            lemma_tnum_bitwise_sound(dst.tnum, rhs.tnum, x, y);
        },
        AluOp::Lsh => {
            if rhs.value is Some {
                let s = y & 63;
                assert(s < 64) by (bit_vector)
                    requires
                        s == y & 63,
                ;
                lemma_tnum_shift_sound(dst.tnum, x, s);
                let (lo, hi) = (dst.min, dst.max);
                if (hi << s) >> s == hi {
                    assert((lo << s) <= (x << s) && (x << s) <= (hi << s)) by (bit_vector)
                        requires
                            lo <= x <= hi,
                            s < 64,
                            (hi << s) >> s == hi,
                    ;
                }
            }
        },
        AluOp::Rsh => {
            if rhs.value is Some {
                let s = y & 63;
                assert(s < 64) by (bit_vector)
                    requires
                        s == y & 63,
                ;
                lemma_tnum_shift_sound(dst.tnum, x, s);
                let (lo, hi) = (dst.min, dst.max);
                assert((lo >> s) <= (x >> s) && (x >> s) <= (hi >> s)) by (bit_vector)
                    requires
                        lo <= x <= hi,
                        s < 64,
                ;
            }
        },
        AluOp::Arsh => {
            if rhs.value is Some {
                let s = y & 63;
                assert(s < 64) by (bit_vector)
                    requires
                        s == y & 63,
                ;
                lemma_tnum_shift_sound(dst.tnum, x, s);
            }
        },
        AluOp::Neg => {},
        AluOp::Mul => {},
        AluOp::End => {},
    }
}

/// `x` lies in the interval of `v`, and is its exact value when it has one.
pub open spec fn in_range(v: ScalarValue, x: u64) -> bool {
    &&& v.min <= x <= v.max
    &&& (v.value matches Some(c) ==> x == c)
}

/// Soundness of the intervals and exact values alone: if `x` lies in the
/// interval of `dst` and `y` in that of `rhs` (each equal to the exact
/// value where there is one), the concrete 64-bit result of `op` lies in
/// the interval of the abstract result, and is its exact value where it
/// has one. The byte swap yields the unknown scalar.
pub proof fn lemma_alu_interval_sound(dst: ScalarValue, op: AluOp, rhs: ScalarValue, x: u64, y: u64)
    requires
        in_range(dst, x),
        in_range(rhs, y),
        (op is Div || op is Mod) ==> y != 0,
        !(op is End),
    ensures
        in_range(alu_result_spec(dst, op, rhs), alu_value(op, x, y, 0).unwrap()),
{
    if op is Mul {
        lemma_alu_mul_range_sound(dst, rhs, x, y);
    } else {
        let d2 = ScalarValue { tnum: unknown_tnum(), ..dst };
        let r2 = ScalarValue { tnum: unknown_tnum(), ..rhs };
        lemma_unknown_tnum_has(x);
        lemma_unknown_tnum_has(y);
        lemma_alu_sound(d2, op, r2, x, y);
        let a = alu_result_spec(d2, op, r2);
        let b = alu_result_spec(dst, op, rhs);
        assert(a.min == b.min && a.max == b.max && a.value == b.value);
    }
}

/// Soundness of the interval and exact value computed for a
/// multiplication: the concrete wrapping product is within them.
pub proof fn lemma_alu_mul_range_sound(dst: ScalarValue, rhs: ScalarValue, x: u64, y: u64)
    requires
        in_range(dst, x),
        in_range(rhs, y),
    ensures
        ({
            let r = alu_result_spec(dst, AluOp::Mul, rhs);
            let z = x.wrapping_mul(y);
            &&& r.min <= z <= r.max
            &&& r.value matches Some(v) ==> v == z
        }),
{
    if dst.min * rhs.min <= u64::MAX && dst.max * rhs.max <= u64::MAX {
        lemma_mul_upper_bound(x as int, dst.max as int, y as int, rhs.max as int);
        lemma_mul_inequality(dst.min as int, x as int, rhs.min as int);
        lemma_mul_inequality(rhs.min as int, y as int, x as int);
        assert(x * y <= u64::MAX);
        assert(x.wrapping_mul(y) == x * y) by {
            vstd::arithmetic::div_mod::lemma_small_mod((x * y) as nat, 0x1_0000_0000_0000_0000nat);
        }
    }
}

} // verus!
