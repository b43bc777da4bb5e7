//! The 32-bit instruction parsers on tokens with and without
//! parameters.

use miden_vm_lib::u32_ops::{
    parse_u32_div, parse_u32_rotl, parse_u32_shr, parse_u32assert, parse_u32checked_add,
    parse_u32checked_eq, parse_u32overflowing_mul, parse_u32wrapping_sub, Instruction,
    LocalConstMap, Node, ParsingError, Token,
};

fn token(parts: &[&str]) -> Token {
    Token::new(parts.iter().map(|p| p.to_string()).collect())
}

fn no_constants() -> LocalConstMap {
    LocalConstMap { entries: Vec::new() }
}

#[test]
fn parse_plain_and_immediate_forms() {
    let t = token(&["u32checked_add"]);
    assert_eq!(
        parse_u32checked_add(&t),
        Ok(Node::Instruction(Instruction::U32CheckedAdd))
    );
    let t = token(&["u32checked_add", "42"]);
    assert_eq!(
        parse_u32checked_add(&t),
        Ok(Node::Instruction(Instruction::U32CheckedAddImm(42)))
    );
    let t = token(&["u32wrapping_sub", "0007"]);
    assert_eq!(
        parse_u32wrapping_sub(&t),
        Ok(Node::Instruction(Instruction::U32WrappingSubImm(7)))
    );
    let t = token(&["u32overflowing_mul", "4294967295"]);
    assert_eq!(
        parse_u32overflowing_mul(&t),
        Ok(Node::Instruction(Instruction::U32OverflowingMulImm(4294967295)))
    );
}

#[test]
fn parse_rejects_bad_parameters() {
    // too large for 32 bits
    let t = token(&["u32checked_add", "4294967296"]);
    assert_eq!(parse_u32checked_add(&t), Err(ParsingError::InvalidParamValue));
    // not a number
    let t = token(&["u32checked_eq", "abc"]);
    assert_eq!(parse_u32checked_eq(&t), Err(ParsingError::InvalidParamValue));
    // too many parameters
    let t = token(&["u32checked_add", "1", "2"]);
    assert_eq!(parse_u32checked_add(&t), Err(ParsingError::ExtraParam));
}

#[test]
fn parse_division_family() {
    let t = token(&["u32checked_div"]);
    assert_eq!(
        parse_u32_div(&t, true),
        Ok(Node::Instruction(Instruction::U32CheckedDiv))
    );
    let t = token(&["u32div", "8"]);
    assert_eq!(
        parse_u32_div(&t, false),
        Ok(Node::Instruction(Instruction::U32DivImm(8)))
    );
    let t = token(&["u32div", "0"]);
    assert_eq!(parse_u32_div(&t, false), Err(ParsingError::DivideByZero));
}

#[test]
fn parse_shift_family_bounds() {
    let t = token(&["u32shr", "31"]);
    assert_eq!(
        parse_u32_shr(&t, false),
        Ok(Node::Instruction(Instruction::U32ShrImm(31)))
    );
    let t = token(&["u32shr", "32"]);
    assert_eq!(parse_u32_shr(&t, true), Err(ParsingError::ParamOutOfBounds));
    let t = token(&["u32rotl", "5"]);
    assert_eq!(
        parse_u32_rotl(&t, true),
        Ok(Node::Instruction(Instruction::U32CheckedRotlImm(5)))
    );
}

#[test]
fn parse_assert_error_codes() {
    let constants = no_constants();
    let t = token(&["u32assert"]);
    assert_eq!(
        parse_u32assert(&t, &constants),
        Ok(Node::Instruction(Instruction::U32Assert))
    );
    // a zero error code yields the plain form
    let t = token(&["u32assert", "0"]);
    assert_eq!(
        parse_u32assert(&t, &constants),
        Ok(Node::Instruction(Instruction::U32Assert))
    );
    let t = token(&["u32assert", "17"]);
    assert_eq!(
        parse_u32assert(&t, &constants),
        Ok(Node::Instruction(Instruction::U32AssertWithError(17)))
    );
    // a named error code resolves through the constant map
    let constants = LocalConstMap { entries: vec![("ERR_CODE".to_string(), 99u64)] };
    let t = token(&["u32assert", "ERR_CODE"]);
    assert_eq!(
        parse_u32assert(&t, &constants),
        Ok(Node::Instruction(Instruction::U32AssertWithError(99)))
    );
}
