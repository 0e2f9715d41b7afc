//! The arithmetic of the calculator: four operators on signed 32-bit numbers.
//!
//! Nothing here fails. A sum, a difference, a product or a quotient that
//! leaves the range of `i32` wraps around in two's complement; a division by
//! zero and an operator that is none of the four have no result.

use vstd::prelude::*;
use vstd::string::StringExecFns;

verus! {

/// The number in the range of `i32` that differs from `x` by a multiple of
/// 2^32: what two's complement arithmetic keeps of `x`.
pub open spec fn wrap_i32(x: int) -> int {
    let m = x % 0x1_0000_0000;
    if m >= 0x8000_0000 {
        m - 0x1_0000_0000
    } else {
        m
    }
}

/// The quotient of `a` by `b` with the fraction dropped, so rounded toward zero.
pub open spec fn trunc_div(a: int, b: int) -> int
    recommends
        b != 0,
{
    if a >= 0 && b > 0 {
        a / b
    } else if a < 0 && b < 0 {
        (-a) / (-b)
    } else if a < 0 {
        -((-a) / b)
    } else {
        -(a / (-b))
    }
}

/// The outcome of a calculation. The four operators are `+`, `-`, `*` and
/// `/`; sums, differences, products and quotients that leave the range of
/// `i32` wrap around. Division by zero and any other operator have no result.
pub open spec fn spec_calculate(val1: i32, val2: i32, operator: Seq<char>) -> Option<i32> {
    if operator == seq!['+'] {
        Some(wrap_i32(val1 + val2) as i32)
    } else if operator == seq!['-'] {
        Some(wrap_i32(val1 - val2) as i32)
    } else if operator == seq!['*'] {
        Some(wrap_i32(val1 * val2) as i32)
    } else if operator == seq!['/'] && val2 != 0 {
        Some(wrap_i32(trunc_div(val1 as int, val2 as int)) as i32)
    } else {
        None
    }
}

fn is_symbol(operator: &String, symbol: &str) -> (b: bool)
    ensures
        b == (operator@ == symbol@),
{
    *operator == String::from_str(symbol)
}

/// Computes the outcome of a calculation.
pub fn calculate(val1: i32, val2: i32, operator: &String) -> (result: Option<i32>)
    ensures
        result == spec_calculate(val1, val2, operator@),
{
    proof {
        reveal_strlit("+");
        reveal_strlit("-");
        reveal_strlit("*");
        reveal_strlit("/");
        assert("+"@ =~= seq!['+']);
        assert("-"@ =~= seq!['-']);
        assert("*"@ =~= seq!['*']);
        assert("/"@ =~= seq!['/']);
    }
    if is_symbol(operator, "+") {
        Some(val1.wrapping_add(val2))
    } else if is_symbol(operator, "-") {
        Some(val1.wrapping_sub(val2))
    } else if is_symbol(operator, "*") {
        Some(val1.wrapping_mul(val2))
    } else if is_symbol(operator, "/") {
        if val2 == 0 {
            None
        } else {
            match val1.checked_div(val2) {
                Some(quotient) => Some(quotient),
                None => Some(i32::MIN),
            }
        }
    } else {
        None
    }
}

} // verus!
