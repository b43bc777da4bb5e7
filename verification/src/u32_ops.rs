//! Parsers for the 32-bit instruction family of the assembly
//! language: each parser turns one source token into its instruction
//! node, reading an optional immediate or error-code parameter.

use vstd::prelude::*;

verus! {

/// The largest number of bits a 32-bit value may be shifted by.
pub const MAX_U32_SHIFT_VALUE: u8 = 31;

/// The largest number of bits a 32-bit value may be rotated by.
pub const MAX_U32_ROTATE_VALUE: u8 = 31;

/// One source token: the instruction mnemonic followed by its
/// parameters.
pub struct Token {
    pub parts: Vec<String>,
}

impl Token {
    /// A token always has at least the mnemonic part.
    pub open spec fn wf(self) -> bool {
        self.parts.len() >= 1
    }

    pub fn new(parts: Vec<String>) -> (r: Token)
        ensures
            r.parts == parts,
    {
        Token { parts }
    }

    /// The number of period-separated parts of the token.
    pub fn num_parts(&self) -> (r: usize)
        ensures
            r == self.parts@.len(),
    {
        self.parts.len()
    }

    /// The parts of the token.
    pub fn parts(&self) -> (r: &Vec<String>)
        ensures
            r == &self.parts,
    {
        &self.parts
    }
}

/// Named constants visible to the parser, each bound to a field value.
pub struct LocalConstMap {
    pub entries: Vec<(String, u64)>,
}

/// The value bound to a name, scanning definitions first to last.
pub open spec fn const_lookup(entries: Seq<(String, u64)>, name: Seq<char>) -> Option<u64>
    decreases entries.len(),
{
    if entries.len() == 0 {
        None
    } else if entries[0].0@ == name {
        Some(entries[0].1)
    } else {
        const_lookup(entries.subrange(1, entries.len() as int), name)
    }
}

/// Errors the instruction parsers report.
#[derive(Debug, PartialEq, Eq, Structural, Clone, Copy)]
pub enum ParsingError {
    /// The token carries more parameters than the instruction takes.
    ExtraParam,
    /// A parameter is not a decimal value in the expected range.
    InvalidParamValue,
    /// A shift or rotation parameter lies outside its allowed range.
    ParamOutOfBounds,
    /// A division instruction carries a zero immediate.
    DivideByZero,
}

/// The instruction nodes the 32-bit parsers produce.
#[derive(Debug, PartialEq, Eq, Structural, Clone, Copy)]
pub enum Instruction {
    U32Assert,
    U32AssertWithError(u32),
    U32Assert2,
    U32Assert2WithError(u32),
    U32AssertW,
    U32AssertWWithError(u32),
    U32CheckedAdd,
    U32CheckedAddImm(u32),
    U32WrappingAdd,
    U32WrappingAddImm(u32),
    U32OverflowingAdd,
    U32OverflowingAddImm(u32),
    U32CheckedSub,
    U32CheckedSubImm(u32),
    U32WrappingSub,
    U32WrappingSubImm(u32),
    U32OverflowingSub,
    U32OverflowingSubImm(u32),
    U32CheckedMul,
    U32CheckedMulImm(u32),
    U32WrappingMul,
    U32WrappingMulImm(u32),
    U32OverflowingMul,
    U32OverflowingMulImm(u32),
    U32CheckedDiv,
    U32CheckedDivImm(u32),
    U32Div,
    U32DivImm(u32),
    U32CheckedMod,
    U32CheckedModImm(u32),
    U32Mod,
    U32ModImm(u32),
    U32CheckedDivMod,
    U32CheckedDivModImm(u32),
    U32DivMod,
    U32DivModImm(u32),
    U32CheckedShr,
    U32CheckedShrImm(u8),
    U32Shr,
    U32ShrImm(u8),
    U32CheckedShl,
    U32CheckedShlImm(u8),
    U32Shl,
    U32ShlImm(u8),
    U32CheckedRotr,
    U32CheckedRotrImm(u8),
    U32Rotr,
    U32RotrImm(u8),
    U32CheckedRotl,
    U32CheckedRotlImm(u8),
    U32Rotl,
    U32RotlImm(u8),
    U32CheckedEq,
    U32CheckedEqImm(u32),
    U32CheckedNeq,
    U32CheckedNeqImm(u32),
}

/// A node of the parsed program body.
#[derive(Debug, PartialEq, Eq, Structural, Clone, Copy)]
pub enum Node {
    Instruction(Instruction),
}

// DECIMAL PARAMETERS
// ================================================================================================

/// A decimal digit.
pub open spec fn is_dec_digit(c: char) -> bool {
    48 <= c as int <= 57
}

/// Every character is a decimal digit.
pub open spec fn all_digits(s: Seq<char>) -> bool {
    forall|i: int| 0 <= i < s.len() ==> is_dec_digit(#[trigger] s[i])
}

/// The value of a decimal digit string.
pub open spec fn digits_val(s: Seq<char>) -> int
    decreases s.len(),
{
    if s.len() == 0 {
        0
    } else {
        digits_val(s.drop_last()) * 10 + (s.last() as int - 48)
    }
}

/// The string is a decimal number no larger than `max`.
pub open spec fn parses_dec(s: Seq<char>, max: int) -> bool {
    s.len() > 0 && all_digits(s) && digits_val(s) <= max
}

/// A digit string's value is never negative.
proof fn lemma_digits_val_nonneg(s: Seq<char>)
    requires
        all_digits(s),
    ensures
        digits_val(s) >= 0,
    decreases s.len(),
{
    if s.len() > 0 {
        assert(all_digits(s.drop_last())) by {
            assert(forall|i: int| 0 <= i < s.len() - 1 ==> s.drop_last()[i] == s[i]);
        }
        lemma_digits_val_nonneg(s.drop_last());
        vstd::arithmetic::mul::lemma_mul_nonnegative(digits_val(s.drop_last()), 10);
    }
}

/// Parses a decimal parameter bounded by `max`. Succeeds exactly on
/// nonempty all-digit strings whose value does not exceed the bound.
pub fn parse_dec_bounded(s: &str, max: u64) -> (r: Option<u64>)
    requires
        max <= 0xffff_ffff,
    ensures
        (r is Some) <==> parses_dec(s@, max as int),
        r is Some ==> r->0 == digits_val(s@) && r->0 <= max,
{
    let n = s.unicode_len();
    if n == 0 {
        return None;
    }
    let mut i: usize = 0;
    let mut acc: u64 = 0;
    let mut over = false;
    while i < n
        invariant
            max <= 0xffff_ffff,
            n == s@.len(),
            i <= n,
            all_digits(s@.subrange(0, i as int)),
            !over ==> acc == digits_val(s@.subrange(0, i as int)) && acc <= max,
            over ==> digits_val(s@.subrange(0, i as int)) > max,
        decreases n - i,
    {
        let c = s.get_char(i);
        let cu: u32 = c as u32;
        proof {
            let pre = s@.subrange(0, i as int + 1);
            assert(pre.drop_last() =~= s@.subrange(0, i as int));
            assert(pre.last() == s@[i as int]);
            lemma_digits_val_nonneg(s@.subrange(0, i as int));
        }
        if cu < 48 || cu > 57 {
            return None;
        }
        let d: u64 = (cu - 48) as u64;
        if !over {
            let next = acc * 10 + d;
            if next > max {
                over = true;
            } else {
                acc = next;
            }
        } else {
            proof {
                let prev = digits_val(s@.subrange(0, i as int));
                vstd::arithmetic::mul::lemma_mul_inequality(1, prev, 10);
            }
        }
        i = i + 1;
    }
    proof {
        assert(s@.subrange(0, n as int) =~= s@);
    }
    if over {
        None
    } else {
        Some(acc)
    }
}

/// Parses the `index`-th token part as a 32-bit decimal parameter.
pub fn parse_param(op: &Token, index: usize) -> (r: Result<u32, ParsingError>)
    requires
        index < op.parts@.len(),
    ensures
        (r is Ok) <==> parses_dec(op.parts@[index as int]@, 0xffff_ffff),
        r is Ok ==> r->Ok_0 == digits_val(op.parts@[index as int]@),
        r is Err ==> r->Err_0 == ParsingError::InvalidParamValue,
{
    proof {
        if all_digits(op.parts@[index as int]@) {
            lemma_digits_val_nonneg(op.parts@[index as int]@);
        }
    }
    match parse_dec_bounded(op.parts[index].as_str(), 0xffff_ffff) {
        Some(v) => Ok(v as u32),
        None => Err(ParsingError::InvalidParamValue),
    }
}

/// Parses the `index`-th token part as a decimal parameter bounded by
/// `max`, distinguishing malformed values from out-of-range ones.
pub fn parse_checked_param_u8(op: &Token, index: usize, max: u8) -> (r: Result<u8, ParsingError>)
    requires
        index < op.parts@.len(),
    ensures
        (r is Ok) <==> parses_dec(op.parts@[index as int]@, max as int),
        r is Ok ==> r->Ok_0 == digits_val(op.parts@[index as int]@),
        r is Err && parses_dec(op.parts@[index as int]@, 0xffff_ffff) ==> r->Err_0
            == ParsingError::ParamOutOfBounds,
        r is Err && !parses_dec(op.parts@[index as int]@, 0xffff_ffff) ==> r->Err_0
            == ParsingError::InvalidParamValue,
    {
    proof {
        if all_digits(op.parts@[index as int]@) {
            lemma_digits_val_nonneg(op.parts@[index as int]@);
        }
    }
    match parse_dec_bounded(op.parts[index].as_str(), max as u64) {
        Some(v) => Ok(v as u8),
        None => {
            match parse_dec_bounded(op.parts[index].as_str(), 0xffff_ffff) {
                Some(_) => Err(ParsingError::ParamOutOfBounds),
                None => Err(ParsingError::InvalidParamValue),
            }
        },
    }
}

/// Parses the second token part as an error code: either a decimal
/// value or the name of a defined constant that fits in 32 bits.
pub fn parse_error_code(op: &Token, constants: &LocalConstMap) -> (r: Result<u32, ParsingError>)
    requires
        2 <= op.parts@.len(),
    ensures
        parses_dec(op.parts@[1]@, 0xffff_ffff) ==> r == Ok::<u32, ParsingError>(
            digits_val(op.parts@[1]@) as u32,
        ),
        !parses_dec(op.parts@[1]@, 0xffff_ffff) ==> match const_lookup(
            constants.entries@,
            op.parts@[1]@,
        ) {
            Some(v) => if v <= 0xffff_ffff {
                r == Ok::<u32, ParsingError>(v as u32)
            } else {
                r == Err::<u32, ParsingError>(ParsingError::InvalidParamValue)
            },
            None => r == Err::<u32, ParsingError>(ParsingError::InvalidParamValue),
        },
{
    proof {
        if all_digits(op.parts@[1]@) {
            lemma_digits_val_nonneg(op.parts@[1]@);
        }
    }
    match parse_dec_bounded(op.parts[1].as_str(), 0xffff_ffff) {
        Some(v) => Ok(v as u32),
        None => {
            let n = constants.entries.len();
            let mut i: usize = 0;
            proof {
                assert(constants.entries@.subrange(0, n as int) =~= constants.entries@);
            }
            while i < n
                invariant
                    n == constants.entries@.len(),
                    i <= n,
                    2 <= op.parts@.len(),
                    !parses_dec(op.parts@[1]@, 0xffff_ffff),
                    const_lookup(constants.entries@, op.parts@[1]@) == const_lookup(
                        constants.entries@.subrange(i as int, n as int),
                        op.parts@[1]@,
                    ),
                decreases n - i,
            {
                proof {
                    let rest = constants.entries@.subrange(i as int, n as int);
                    assert(rest[0] == constants.entries@[i as int]);
                    assert(rest.subrange(1, rest.len() as int) =~= constants.entries@.subrange(
                        i as int + 1,
                        n as int,
                    ));
                }
                if constants.entries[i].0 == op.parts[1] {
                    let v = constants.entries[i].1;
                    if v <= 0xffff_ffff {
                        return Ok(v as u32);
                    } else {
                        return Err(ParsingError::InvalidParamValue);
                    }
                }
                i = i + 1;
            }
            proof {
                assert(constants.entries@.subrange(n as int, n as int) =~= Seq::<
                    (String, u64),
                >::empty());
            }
            Err(ParsingError::InvalidParamValue)
        },
    }
}

/// Rejects a zero immediate for division-family instructions.
pub fn check_div_by_zero(value: u64) -> (r: Result<(), ParsingError>)
    ensures
        value == 0 ==> r == Err::<(), ParsingError>(ParsingError::DivideByZero),
        value != 0 ==> r == Ok::<(), ParsingError>(()),
{
    if value == 0 {
        Err(ParsingError::DivideByZero)
    } else {
        Ok(())
    }
}

// INSTRUCTION PARSERS
// ================================================================================================

/// Returns `U32Assert` if no error code is provided, or
/// `U32AssertWithError` otherwise; a zero error code means the plain form.
pub fn parse_u32assert(op: &Token, constants: &LocalConstMap) -> (r: Result<Node, ParsingError>)
    requires
        op.wf(),
    ensures
        op.parts@.len() == 1 ==> r == Ok::<Node, ParsingError>(
            Node::Instruction(Instruction::U32Assert),
        ),
        op.parts@.len() > 2 ==> r == Err::<Node, ParsingError>(ParsingError::ExtraParam),
        op.parts@.len() == 2 && parses_dec(op.parts@[1]@, 0xffff_ffff) ==> r == (if digits_val(
            op.parts@[1]@,
        ) == 0 {
            Ok::<Node, ParsingError>(Node::Instruction(Instruction::U32Assert))
        } else {
            Ok::<Node, ParsingError>(
                Node::Instruction(Instruction::U32AssertWithError(digits_val(op.parts@[1]@) as u32)),
            )
        }),
        op.parts@.len() == 2 && !parses_dec(op.parts@[1]@, 0xffff_ffff) ==> r == (match const_lookup(
            constants.entries@,
            op.parts@[1]@,
        ) {
            Some(v) => if v > 0xffff_ffff {
                Err::<Node, ParsingError>(ParsingError::InvalidParamValue)
            } else if v == 0 {
                Ok::<Node, ParsingError>(Node::Instruction(Instruction::U32Assert))
            } else {
                Ok::<Node, ParsingError>(Node::Instruction(Instruction::U32AssertWithError(v as u32)))
            },
            None => Err::<Node, ParsingError>(ParsingError::InvalidParamValue),
        }),
{
    proof {
        if op.parts@.len() >= 2 && all_digits(op.parts@[1]@) {
            lemma_digits_val_nonneg(op.parts@[1]@);
        }
    }
    if op.num_parts() == 1 {
        Ok(Node::Instruction(Instruction::U32Assert))
    } else if op.num_parts() == 2 {
        let err_code = parse_error_code(op, constants)?;
        if err_code == 0 {
            Ok(Node::Instruction(Instruction::U32Assert))
        } else {
            Ok(Node::Instruction(Instruction::U32AssertWithError(err_code)))
        }
    } else {
        Err(ParsingError::ExtraParam)
    }
}

/// Returns `U32Assert2` if no error code is provided, or
/// `U32Assert2WithError` otherwise; a zero error code means the plain form.
pub fn parse_u32assert2(op: &Token, constants: &LocalConstMap) -> (r: Result<Node, ParsingError>)
    requires
        op.wf(),
    ensures
        op.parts@.len() == 1 ==> r == Ok::<Node, ParsingError>(
            Node::Instruction(Instruction::U32Assert2),
        ),
        op.parts@.len() > 2 ==> r == Err::<Node, ParsingError>(ParsingError::ExtraParam),
        op.parts@.len() == 2 && parses_dec(op.parts@[1]@, 0xffff_ffff) ==> r == (if digits_val(
            op.parts@[1]@,
        ) == 0 {
            Ok::<Node, ParsingError>(Node::Instruction(Instruction::U32Assert2))
        } else {
            Ok::<Node, ParsingError>(
                Node::Instruction(Instruction::U32Assert2WithError(digits_val(op.parts@[1]@) as u32)),
            )
        }),
        op.parts@.len() == 2 && !parses_dec(op.parts@[1]@, 0xffff_ffff) ==> r == (match const_lookup(
            constants.entries@,
            op.parts@[1]@,
        ) {
            Some(v) => if v > 0xffff_ffff {
                Err::<Node, ParsingError>(ParsingError::InvalidParamValue)
            } else if v == 0 {
                Ok::<Node, ParsingError>(Node::Instruction(Instruction::U32Assert2))
            } else {
                Ok::<Node, ParsingError>(Node::Instruction(Instruction::U32Assert2WithError(v as u32)))
            },
            None => Err::<Node, ParsingError>(ParsingError::InvalidParamValue),
        }),
{
    proof {
        if op.parts@.len() >= 2 && all_digits(op.parts@[1]@) {
            lemma_digits_val_nonneg(op.parts@[1]@);
        }
    }
    if op.num_parts() == 1 {
        Ok(Node::Instruction(Instruction::U32Assert2))
    } else if op.num_parts() == 2 {
        let err_code = parse_error_code(op, constants)?;
        if err_code == 0 {
            Ok(Node::Instruction(Instruction::U32Assert2))
        } else {
            Ok(Node::Instruction(Instruction::U32Assert2WithError(err_code)))
        }
    } else {
        Err(ParsingError::ExtraParam)
    }
}

/// Returns `U32AssertW` if no error code is provided, or
/// `U32AssertWWithError` otherwise; a zero error code means the plain form.
pub fn parse_u32assertw(op: &Token, constants: &LocalConstMap) -> (r: Result<Node, ParsingError>)
    requires
        op.wf(),
    ensures
        op.parts@.len() == 1 ==> r == Ok::<Node, ParsingError>(
            Node::Instruction(Instruction::U32AssertW),
        ),
        op.parts@.len() > 2 ==> r == Err::<Node, ParsingError>(ParsingError::ExtraParam),
        op.parts@.len() == 2 && parses_dec(op.parts@[1]@, 0xffff_ffff) ==> r == (if digits_val(
            op.parts@[1]@,
        ) == 0 {
            Ok::<Node, ParsingError>(Node::Instruction(Instruction::U32AssertW))
        } else {
            Ok::<Node, ParsingError>(
                Node::Instruction(Instruction::U32AssertWWithError(digits_val(op.parts@[1]@) as u32)),
            )
        }),
        op.parts@.len() == 2 && !parses_dec(op.parts@[1]@, 0xffff_ffff) ==> r == (match const_lookup(
            constants.entries@,
            op.parts@[1]@,
        ) {
            Some(v) => if v > 0xffff_ffff {
                Err::<Node, ParsingError>(ParsingError::InvalidParamValue)
            } else if v == 0 {
                Ok::<Node, ParsingError>(Node::Instruction(Instruction::U32AssertW))
            } else {
                Ok::<Node, ParsingError>(Node::Instruction(Instruction::U32AssertWWithError(v as u32)))
            },
            None => Err::<Node, ParsingError>(ParsingError::InvalidParamValue),
        }),
{
    proof {
        if op.parts@.len() >= 2 && all_digits(op.parts@[1]@) {
            lemma_digits_val_nonneg(op.parts@[1]@);
        }
    }
    if op.num_parts() == 1 {
        Ok(Node::Instruction(Instruction::U32AssertW))
    } else if op.num_parts() == 2 {
        let err_code = parse_error_code(op, constants)?;
        if err_code == 0 {
            Ok(Node::Instruction(Instruction::U32AssertW))
        } else {
            Ok(Node::Instruction(Instruction::U32AssertWWithError(err_code)))
        }
    } else {
        Err(ParsingError::ExtraParam)
    }
}

/// Returns `U32CheckedAdd` if no immediate is provided, or
/// `U32CheckedAddImm` otherwise.
pub fn parse_u32checked_add(op: &Token) -> (r: Result<Node, ParsingError>)
    requires
        op.wf(),
    ensures
        op.parts@.len() == 1 ==> r == Ok::<Node, ParsingError>(
            Node::Instruction(Instruction::U32CheckedAdd),
        ),
        op.parts@.len() > 2 ==> r == Err::<Node, ParsingError>(ParsingError::ExtraParam),
        op.parts@.len() == 2 ==> r == (if parses_dec(op.parts@[1]@, 0xffff_ffff) {
            Ok::<Node, ParsingError>(
                Node::Instruction(Instruction::U32CheckedAddImm(digits_val(op.parts@[1]@) as u32)),
            )
        } else {
            Err::<Node, ParsingError>(ParsingError::InvalidParamValue)
        }),
{
    proof {
        if op.parts@.len() >= 2 && all_digits(op.parts@[1]@) {
            lemma_digits_val_nonneg(op.parts@[1]@);
        }
    }
    if op.num_parts() == 1 {
        Ok(Node::Instruction(Instruction::U32CheckedAdd))
    } else if op.num_parts() == 2 {
        let value = parse_param(op, 1)?;
        Ok(Node::Instruction(Instruction::U32CheckedAddImm(value)))
    } else {
        Err(ParsingError::ExtraParam)
    }
}

/// Returns `U32WrappingAdd` if no immediate is provided, or
/// `U32WrappingAddImm` otherwise.
pub fn parse_u32wrapping_add(op: &Token) -> (r: Result<Node, ParsingError>)
    requires
        op.wf(),
    ensures
        op.parts@.len() == 1 ==> r == Ok::<Node, ParsingError>(
            Node::Instruction(Instruction::U32WrappingAdd),
        ),
        op.parts@.len() > 2 ==> r == Err::<Node, ParsingError>(ParsingError::ExtraParam),
        op.parts@.len() == 2 ==> r == (if parses_dec(op.parts@[1]@, 0xffff_ffff) {
            Ok::<Node, ParsingError>(
                Node::Instruction(Instruction::U32WrappingAddImm(digits_val(op.parts@[1]@) as u32)),
            )
        } else {
            Err::<Node, ParsingError>(ParsingError::InvalidParamValue)
        }),
{
    proof {
        if op.parts@.len() >= 2 && all_digits(op.parts@[1]@) {
            lemma_digits_val_nonneg(op.parts@[1]@);
        }
    }
    if op.num_parts() == 1 {
        Ok(Node::Instruction(Instruction::U32WrappingAdd))
    } else if op.num_parts() == 2 {
        let value = parse_param(op, 1)?;
        Ok(Node::Instruction(Instruction::U32WrappingAddImm(value)))
    } else {
        Err(ParsingError::ExtraParam)
    }
}

/// Returns `U32OverflowingAdd` if no immediate is provided, or
/// `U32OverflowingAddImm` otherwise.
pub fn parse_u32overflowing_add(op: &Token) -> (r: Result<Node, ParsingError>)
    requires
        op.wf(),
    ensures
        op.parts@.len() == 1 ==> r == Ok::<Node, ParsingError>(
            Node::Instruction(Instruction::U32OverflowingAdd),
        ),
        op.parts@.len() > 2 ==> r == Err::<Node, ParsingError>(ParsingError::ExtraParam),
        op.parts@.len() == 2 ==> r == (if parses_dec(op.parts@[1]@, 0xffff_ffff) {
            Ok::<Node, ParsingError>(
                Node::Instruction(Instruction::U32OverflowingAddImm(digits_val(op.parts@[1]@) as u32)),
            )
        } else {
            Err::<Node, ParsingError>(ParsingError::InvalidParamValue)
        }),
{
    proof {
        if op.parts@.len() >= 2 && all_digits(op.parts@[1]@) {
            lemma_digits_val_nonneg(op.parts@[1]@);
        }
    }
    if op.num_parts() == 1 {
        Ok(Node::Instruction(Instruction::U32OverflowingAdd))
    } else if op.num_parts() == 2 {
        let value = parse_param(op, 1)?;
        Ok(Node::Instruction(Instruction::U32OverflowingAddImm(value)))
    } else {
        Err(ParsingError::ExtraParam)
    }
}

/// Returns `U32CheckedSub` if no immediate is provided, or
/// `U32CheckedSubImm` otherwise.
pub fn parse_u32checked_sub(op: &Token) -> (r: Result<Node, ParsingError>)
    requires
        op.wf(),
    ensures
        op.parts@.len() == 1 ==> r == Ok::<Node, ParsingError>(
            Node::Instruction(Instruction::U32CheckedSub),
        ),
        op.parts@.len() > 2 ==> r == Err::<Node, ParsingError>(ParsingError::ExtraParam),
        op.parts@.len() == 2 ==> r == (if parses_dec(op.parts@[1]@, 0xffff_ffff) {
            Ok::<Node, ParsingError>(
                Node::Instruction(Instruction::U32CheckedSubImm(digits_val(op.parts@[1]@) as u32)),
            )
        } else {
            Err::<Node, ParsingError>(ParsingError::InvalidParamValue)
        }),
{
    proof {
        if op.parts@.len() >= 2 && all_digits(op.parts@[1]@) {
            lemma_digits_val_nonneg(op.parts@[1]@);
        }
    }
    if op.num_parts() == 1 {
        Ok(Node::Instruction(Instruction::U32CheckedSub))
    } else if op.num_parts() == 2 {
        let value = parse_param(op, 1)?;
        Ok(Node::Instruction(Instruction::U32CheckedSubImm(value)))
    } else {
        Err(ParsingError::ExtraParam)
    }
}

/// Returns `U32WrappingSub` if no immediate is provided, or
/// `U32WrappingSubImm` otherwise.
pub fn parse_u32wrapping_sub(op: &Token) -> (r: Result<Node, ParsingError>)
    requires
        op.wf(),
    ensures
        op.parts@.len() == 1 ==> r == Ok::<Node, ParsingError>(
            Node::Instruction(Instruction::U32WrappingSub),
        ),
        op.parts@.len() > 2 ==> r == Err::<Node, ParsingError>(ParsingError::ExtraParam),
        op.parts@.len() == 2 ==> r == (if parses_dec(op.parts@[1]@, 0xffff_ffff) {
            Ok::<Node, ParsingError>(
                Node::Instruction(Instruction::U32WrappingSubImm(digits_val(op.parts@[1]@) as u32)),
            )
        } else {
            Err::<Node, ParsingError>(ParsingError::InvalidParamValue)
        }),
{
    proof {
        if op.parts@.len() >= 2 && all_digits(op.parts@[1]@) {
            lemma_digits_val_nonneg(op.parts@[1]@);
        }
    }
    if op.num_parts() == 1 {
        Ok(Node::Instruction(Instruction::U32WrappingSub))
    } else if op.num_parts() == 2 {
        let value = parse_param(op, 1)?;
        Ok(Node::Instruction(Instruction::U32WrappingSubImm(value)))
    } else {
        Err(ParsingError::ExtraParam)
    }
}

/// Returns `U32OverflowingSub` if no immediate is provided, or
/// `U32OverflowingSubImm` otherwise.
pub fn parse_u32overflowing_sub(op: &Token) -> (r: Result<Node, ParsingError>)
    requires
        op.wf(),
    ensures
        op.parts@.len() == 1 ==> r == Ok::<Node, ParsingError>(
            Node::Instruction(Instruction::U32OverflowingSub),
        ),
        op.parts@.len() > 2 ==> r == Err::<Node, ParsingError>(ParsingError::ExtraParam),
        op.parts@.len() == 2 ==> r == (if parses_dec(op.parts@[1]@, 0xffff_ffff) {
            Ok::<Node, ParsingError>(
                Node::Instruction(Instruction::U32OverflowingSubImm(digits_val(op.parts@[1]@) as u32)),
            )
        } else {
            Err::<Node, ParsingError>(ParsingError::InvalidParamValue)
        }),
{
    proof {
        if op.parts@.len() >= 2 && all_digits(op.parts@[1]@) {
            lemma_digits_val_nonneg(op.parts@[1]@);
        }
    }
    if op.num_parts() == 1 {
        Ok(Node::Instruction(Instruction::U32OverflowingSub))
    } else if op.num_parts() == 2 {
        let value = parse_param(op, 1)?;
        Ok(Node::Instruction(Instruction::U32OverflowingSubImm(value)))
    } else {
        Err(ParsingError::ExtraParam)
    }
}

/// Returns `U32CheckedMul` if no immediate is provided, or
/// `U32CheckedMulImm` otherwise.
pub fn parse_u32checked_mul(op: &Token) -> (r: Result<Node, ParsingError>)
    requires
        op.wf(),
    ensures
        op.parts@.len() == 1 ==> r == Ok::<Node, ParsingError>(
            Node::Instruction(Instruction::U32CheckedMul),
        ),
        op.parts@.len() > 2 ==> r == Err::<Node, ParsingError>(ParsingError::ExtraParam),
        op.parts@.len() == 2 ==> r == (if parses_dec(op.parts@[1]@, 0xffff_ffff) {
            Ok::<Node, ParsingError>(
                Node::Instruction(Instruction::U32CheckedMulImm(digits_val(op.parts@[1]@) as u32)),
            )
        } else {
            Err::<Node, ParsingError>(ParsingError::InvalidParamValue)
        }),
{
    proof {
        if op.parts@.len() >= 2 && all_digits(op.parts@[1]@) {
            lemma_digits_val_nonneg(op.parts@[1]@);
        }
    }
    if op.num_parts() == 1 {
        Ok(Node::Instruction(Instruction::U32CheckedMul))
    } else if op.num_parts() == 2 {
        let value = parse_param(op, 1)?;
        Ok(Node::Instruction(Instruction::U32CheckedMulImm(value)))
    } else {
        Err(ParsingError::ExtraParam)
    }
}

/// Returns `U32WrappingMul` if no immediate is provided, or
/// `U32WrappingMulImm` otherwise.
pub fn parse_u32wrapping_mul(op: &Token) -> (r: Result<Node, ParsingError>)
    requires
        op.wf(),
    ensures
        op.parts@.len() == 1 ==> r == Ok::<Node, ParsingError>(
            Node::Instruction(Instruction::U32WrappingMul),
        ),
        op.parts@.len() > 2 ==> r == Err::<Node, ParsingError>(ParsingError::ExtraParam),
        op.parts@.len() == 2 ==> r == (if parses_dec(op.parts@[1]@, 0xffff_ffff) {
            Ok::<Node, ParsingError>(
                Node::Instruction(Instruction::U32WrappingMulImm(digits_val(op.parts@[1]@) as u32)),
            )
        } else {
            Err::<Node, ParsingError>(ParsingError::InvalidParamValue)
        }),
{
    proof {
        if op.parts@.len() >= 2 && all_digits(op.parts@[1]@) {
            lemma_digits_val_nonneg(op.parts@[1]@);
        }
    }
    if op.num_parts() == 1 {
        Ok(Node::Instruction(Instruction::U32WrappingMul))
    } else if op.num_parts() == 2 {
        let value = parse_param(op, 1)?;
        Ok(Node::Instruction(Instruction::U32WrappingMulImm(value)))
    } else {
        Err(ParsingError::ExtraParam)
    }
}

/// Returns `U32OverflowingMul` if no immediate is provided, or
/// `U32OverflowingMulImm` otherwise.
pub fn parse_u32overflowing_mul(op: &Token) -> (r: Result<Node, ParsingError>)
    requires
        op.wf(),
    ensures
        op.parts@.len() == 1 ==> r == Ok::<Node, ParsingError>(
            Node::Instruction(Instruction::U32OverflowingMul),
        ),
        op.parts@.len() > 2 ==> r == Err::<Node, ParsingError>(ParsingError::ExtraParam),
        op.parts@.len() == 2 ==> r == (if parses_dec(op.parts@[1]@, 0xffff_ffff) {
            Ok::<Node, ParsingError>(
                Node::Instruction(Instruction::U32OverflowingMulImm(digits_val(op.parts@[1]@) as u32)),
            )
        } else {
            Err::<Node, ParsingError>(ParsingError::InvalidParamValue)
        }),
{
    proof {
        if op.parts@.len() >= 2 && all_digits(op.parts@[1]@) {
            lemma_digits_val_nonneg(op.parts@[1]@);
        }
    }
    if op.num_parts() == 1 {
        Ok(Node::Instruction(Instruction::U32OverflowingMul))
    } else if op.num_parts() == 2 {
        let value = parse_param(op, 1)?;
        Ok(Node::Instruction(Instruction::U32OverflowingMulImm(value)))
    } else {
        Err(ParsingError::ExtraParam)
    }
}

/// Returns `U32CheckedEq` if no immediate is provided, or
/// `U32CheckedEqImm` otherwise.
pub fn parse_u32checked_eq(op: &Token) -> (r: Result<Node, ParsingError>)
    requires
        op.wf(),
    ensures
        op.parts@.len() == 1 ==> r == Ok::<Node, ParsingError>(
            Node::Instruction(Instruction::U32CheckedEq),
        ),
        op.parts@.len() > 2 ==> r == Err::<Node, ParsingError>(ParsingError::ExtraParam),
        op.parts@.len() == 2 ==> r == (if parses_dec(op.parts@[1]@, 0xffff_ffff) {
            Ok::<Node, ParsingError>(
                Node::Instruction(Instruction::U32CheckedEqImm(digits_val(op.parts@[1]@) as u32)),
            )
        } else {
            Err::<Node, ParsingError>(ParsingError::InvalidParamValue)
        }),
{
    proof {
        if op.parts@.len() >= 2 && all_digits(op.parts@[1]@) {
            lemma_digits_val_nonneg(op.parts@[1]@);
        }
    }
    if op.num_parts() == 1 {
        Ok(Node::Instruction(Instruction::U32CheckedEq))
    } else if op.num_parts() == 2 {
        let value = parse_param(op, 1)?;
        Ok(Node::Instruction(Instruction::U32CheckedEqImm(value)))
    } else {
        Err(ParsingError::ExtraParam)
    }
}

/// Returns `U32CheckedNeq` if no immediate is provided, or
/// `U32CheckedNeqImm` otherwise.
pub fn parse_u32checked_neq(op: &Token) -> (r: Result<Node, ParsingError>)
    requires
        op.wf(),
    ensures
        op.parts@.len() == 1 ==> r == Ok::<Node, ParsingError>(
            Node::Instruction(Instruction::U32CheckedNeq),
        ),
        op.parts@.len() > 2 ==> r == Err::<Node, ParsingError>(ParsingError::ExtraParam),
        op.parts@.len() == 2 ==> r == (if parses_dec(op.parts@[1]@, 0xffff_ffff) {
            Ok::<Node, ParsingError>(
                Node::Instruction(Instruction::U32CheckedNeqImm(digits_val(op.parts@[1]@) as u32)),
            )
        } else {
            Err::<Node, ParsingError>(ParsingError::InvalidParamValue)
        }),
{
    proof {
        if op.parts@.len() >= 2 && all_digits(op.parts@[1]@) {
            lemma_digits_val_nonneg(op.parts@[1]@);
        }
    }
    if op.num_parts() == 1 {
        Ok(Node::Instruction(Instruction::U32CheckedNeq))
    } else if op.num_parts() == 2 {
        let value = parse_param(op, 1)?;
        Ok(Node::Instruction(Instruction::U32CheckedNeqImm(value)))
    } else {
        Err(ParsingError::ExtraParam)
    }
}

/// Returns one of four instructions: `U32CheckedDiv` or `U32Div` without a
/// parameter, `U32CheckedDivImm` or `U32DivImm` with one; a zero immediate is rejected.
pub fn parse_u32_div(op: &Token, checked: bool) -> (r: Result<Node, ParsingError>)
    requires
        op.wf(),
    ensures
        op.parts@.len() == 1 ==> r == Ok::<Node, ParsingError>(
            Node::Instruction(
                if checked {
                    Instruction::U32CheckedDiv
                } else {
                    Instruction::U32Div
                },
            ),
        ),
        op.parts@.len() > 2 ==> r == Err::<Node, ParsingError>(ParsingError::ExtraParam),
        op.parts@.len() == 2 ==> r == (if !parses_dec(op.parts@[1]@, 0xffff_ffff) {
            Err::<Node, ParsingError>(ParsingError::InvalidParamValue)
        } else if digits_val(op.parts@[1]@) == 0 {
            Err::<Node, ParsingError>(ParsingError::DivideByZero)
        } else {
            Ok::<Node, ParsingError>(
                Node::Instruction(
                    if checked {
                        Instruction::U32CheckedDivImm(digits_val(op.parts@[1]@) as u32)
                    } else {
                        Instruction::U32DivImm(digits_val(op.parts@[1]@) as u32)
                    },
                ),
            )
        }),
{
    proof {
        if op.parts@.len() >= 2 && all_digits(op.parts@[1]@) {
            lemma_digits_val_nonneg(op.parts@[1]@);
        }
    }
    if op.num_parts() == 1 {
        if checked {
            Ok(Node::Instruction(Instruction::U32CheckedDiv))
        } else {
            Ok(Node::Instruction(Instruction::U32Div))
        }
    } else if op.num_parts() == 2 {
        let value = parse_param(op, 1)?;
        check_div_by_zero(value as u64)?;
        if checked {
            Ok(Node::Instruction(Instruction::U32CheckedDivImm(value)))
        } else {
            Ok(Node::Instruction(Instruction::U32DivImm(value)))
        }
    } else {
        Err(ParsingError::ExtraParam)
    }
}

/// Returns one of four instructions: `U32CheckedMod` or `U32Mod` without a
/// parameter, `U32CheckedModImm` or `U32ModImm` with one; a zero immediate is rejected.
pub fn parse_u32_mod(op: &Token, checked: bool) -> (r: Result<Node, ParsingError>)
    requires
        op.wf(),
    ensures
        op.parts@.len() == 1 ==> r == Ok::<Node, ParsingError>(
            Node::Instruction(
                if checked {
                    Instruction::U32CheckedMod
                } else {
                    Instruction::U32Mod
                },
            ),
        ),
        op.parts@.len() > 2 ==> r == Err::<Node, ParsingError>(ParsingError::ExtraParam),
        op.parts@.len() == 2 ==> r == (if !parses_dec(op.parts@[1]@, 0xffff_ffff) {
            Err::<Node, ParsingError>(ParsingError::InvalidParamValue)
        } else if digits_val(op.parts@[1]@) == 0 {
            Err::<Node, ParsingError>(ParsingError::DivideByZero)
        } else {
            Ok::<Node, ParsingError>(
                Node::Instruction(
                    if checked {
                        Instruction::U32CheckedModImm(digits_val(op.parts@[1]@) as u32)
                    } else {
                        Instruction::U32ModImm(digits_val(op.parts@[1]@) as u32)
                    },
                ),
            )
        }),
{
    proof {
        if op.parts@.len() >= 2 && all_digits(op.parts@[1]@) {
            lemma_digits_val_nonneg(op.parts@[1]@);
        }
    }
    if op.num_parts() == 1 {
        if checked {
            Ok(Node::Instruction(Instruction::U32CheckedMod))
        } else {
            Ok(Node::Instruction(Instruction::U32Mod))
        }
    } else if op.num_parts() == 2 {
        let value = parse_param(op, 1)?;
        check_div_by_zero(value as u64)?;
        if checked {
            Ok(Node::Instruction(Instruction::U32CheckedModImm(value)))
        } else {
            Ok(Node::Instruction(Instruction::U32ModImm(value)))
        }
    } else {
        Err(ParsingError::ExtraParam)
    }
}

/// Returns one of four instructions: `U32CheckedDivMod` or `U32DivMod` without a
/// parameter, `U32CheckedDivModImm` or `U32DivModImm` with one; a zero immediate is rejected.
pub fn parse_u32_divmod(op: &Token, checked: bool) -> (r: Result<Node, ParsingError>)
    requires
        op.wf(),
    ensures
        op.parts@.len() == 1 ==> r == Ok::<Node, ParsingError>(
            Node::Instruction(
                if checked {
                    Instruction::U32CheckedDivMod
                } else {
                    Instruction::U32DivMod
                },
            ),
        ),
        op.parts@.len() > 2 ==> r == Err::<Node, ParsingError>(ParsingError::ExtraParam),
        op.parts@.len() == 2 ==> r == (if !parses_dec(op.parts@[1]@, 0xffff_ffff) {
            Err::<Node, ParsingError>(ParsingError::InvalidParamValue)
        } else if digits_val(op.parts@[1]@) == 0 {
            Err::<Node, ParsingError>(ParsingError::DivideByZero)
        } else {
            Ok::<Node, ParsingError>(
                Node::Instruction(
                    if checked {
                        Instruction::U32CheckedDivModImm(digits_val(op.parts@[1]@) as u32)
                    } else {
                        Instruction::U32DivModImm(digits_val(op.parts@[1]@) as u32)
                    },
                ),
            )
        }),
{
    proof {
        if op.parts@.len() >= 2 && all_digits(op.parts@[1]@) {
            lemma_digits_val_nonneg(op.parts@[1]@);
        }
    }
    if op.num_parts() == 1 {
        if checked {
            Ok(Node::Instruction(Instruction::U32CheckedDivMod))
        } else {
            Ok(Node::Instruction(Instruction::U32DivMod))
        }
    } else if op.num_parts() == 2 {
        let value = parse_param(op, 1)?;
        check_div_by_zero(value as u64)?;
        if checked {
            Ok(Node::Instruction(Instruction::U32CheckedDivModImm(value)))
        } else {
            Ok(Node::Instruction(Instruction::U32DivModImm(value)))
        }
    } else {
        Err(ParsingError::ExtraParam)
    }
}

/// Returns one of four instructions: `U32CheckedShr` or `U32Shr` without a
/// parameter, `U32CheckedShrImm` or `U32ShrImm` with one bounded by MAX_U32_SHIFT_VALUE.
pub fn parse_u32_shr(op: &Token, checked: bool) -> (r: Result<Node, ParsingError>)
    requires
        op.wf(),
    ensures
        op.parts@.len() == 1 ==> r == Ok::<Node, ParsingError>(
            Node::Instruction(
                if checked {
                    Instruction::U32CheckedShr
                } else {
                    Instruction::U32Shr
                },
            ),
        ),
        op.parts@.len() > 2 ==> r == Err::<Node, ParsingError>(ParsingError::ExtraParam),
        op.parts@.len() == 2 && parses_dec(op.parts@[1]@, 31) ==> r == Ok::<Node, ParsingError>(
            Node::Instruction(
                if checked {
                    Instruction::U32CheckedShrImm(digits_val(op.parts@[1]@) as u8)
                } else {
                    Instruction::U32ShrImm(digits_val(op.parts@[1]@) as u8)
                },
            ),
        ),
        op.parts@.len() == 2 && !parses_dec(op.parts@[1]@, 31) ==> r is Err,
{
    proof {
        if op.parts@.len() >= 2 && all_digits(op.parts@[1]@) {
            lemma_digits_val_nonneg(op.parts@[1]@);
        }
    }
    if op.num_parts() == 1 {
        if checked {
            Ok(Node::Instruction(Instruction::U32CheckedShr))
        } else {
            Ok(Node::Instruction(Instruction::U32Shr))
        }
    } else if op.num_parts() == 2 {
        let n = parse_checked_param_u8(op, 1, MAX_U32_SHIFT_VALUE)?;
        if checked {
            Ok(Node::Instruction(Instruction::U32CheckedShrImm(n)))
        } else {
            Ok(Node::Instruction(Instruction::U32ShrImm(n)))
        }
    } else {
        Err(ParsingError::ExtraParam)
    }
}

/// Returns one of four instructions: `U32CheckedShl` or `U32Shl` without a
/// parameter, `U32CheckedShlImm` or `U32ShlImm` with one bounded by MAX_U32_SHIFT_VALUE.
pub fn parse_u32_shl(op: &Token, checked: bool) -> (r: Result<Node, ParsingError>)
    requires
        op.wf(),
    ensures
        op.parts@.len() == 1 ==> r == Ok::<Node, ParsingError>(
            Node::Instruction(
                if checked {
                    Instruction::U32CheckedShl
                } else {
                    Instruction::U32Shl
                },
            ),
        ),
        op.parts@.len() > 2 ==> r == Err::<Node, ParsingError>(ParsingError::ExtraParam),
        op.parts@.len() == 2 && parses_dec(op.parts@[1]@, 31) ==> r == Ok::<Node, ParsingError>(
            Node::Instruction(
                if checked {
                    Instruction::U32CheckedShlImm(digits_val(op.parts@[1]@) as u8)
                } else {
                    Instruction::U32ShlImm(digits_val(op.parts@[1]@) as u8)
                },
            ),
        ),
        op.parts@.len() == 2 && !parses_dec(op.parts@[1]@, 31) ==> r is Err,
{
    proof {
        if op.parts@.len() >= 2 && all_digits(op.parts@[1]@) {
            lemma_digits_val_nonneg(op.parts@[1]@);
        }
    }
    if op.num_parts() == 1 {
        if checked {
            Ok(Node::Instruction(Instruction::U32CheckedShl))
        } else {
            Ok(Node::Instruction(Instruction::U32Shl))
        }
    } else if op.num_parts() == 2 {
        let n = parse_checked_param_u8(op, 1, MAX_U32_SHIFT_VALUE)?;
        if checked {
            Ok(Node::Instruction(Instruction::U32CheckedShlImm(n)))
        } else {
            Ok(Node::Instruction(Instruction::U32ShlImm(n)))
        }
    } else {
        Err(ParsingError::ExtraParam)
    }
}

/// Returns one of four instructions: `U32CheckedRotr` or `U32Rotr` without a
/// parameter, `U32CheckedRotrImm` or `U32RotrImm` with one bounded by MAX_U32_ROTATE_VALUE.
pub fn parse_u32_rotr(op: &Token, checked: bool) -> (r: Result<Node, ParsingError>)
    requires
        op.wf(),
    ensures
        op.parts@.len() == 1 ==> r == Ok::<Node, ParsingError>(
            Node::Instruction(
                if checked {
                    Instruction::U32CheckedRotr
                } else {
                    Instruction::U32Rotr
                },
            ),
        ),
        op.parts@.len() > 2 ==> r == Err::<Node, ParsingError>(ParsingError::ExtraParam),
        op.parts@.len() == 2 && parses_dec(op.parts@[1]@, 31) ==> r == Ok::<Node, ParsingError>(
            Node::Instruction(
                if checked {
                    Instruction::U32CheckedRotrImm(digits_val(op.parts@[1]@) as u8)
                } else {
                    Instruction::U32RotrImm(digits_val(op.parts@[1]@) as u8)
                },
            ),
        ),
        op.parts@.len() == 2 && !parses_dec(op.parts@[1]@, 31) ==> r is Err,
{
    proof {
        if op.parts@.len() >= 2 && all_digits(op.parts@[1]@) {
            lemma_digits_val_nonneg(op.parts@[1]@);
        }
    }
    if op.num_parts() == 1 {
        if checked {
            Ok(Node::Instruction(Instruction::U32CheckedRotr))
        } else {
            Ok(Node::Instruction(Instruction::U32Rotr))
        }
    } else if op.num_parts() == 2 {
        let n = parse_checked_param_u8(op, 1, MAX_U32_ROTATE_VALUE)?;
        if checked {
            Ok(Node::Instruction(Instruction::U32CheckedRotrImm(n)))
        } else {
            Ok(Node::Instruction(Instruction::U32RotrImm(n)))
        }
    } else {
        Err(ParsingError::ExtraParam)
    }
}

/// Returns one of four instructions: `U32CheckedRotl` or `U32Rotl` without a
/// parameter, `U32CheckedRotlImm` or `U32RotlImm` with one bounded by MAX_U32_ROTATE_VALUE.
pub fn parse_u32_rotl(op: &Token, checked: bool) -> (r: Result<Node, ParsingError>)
    requires
        op.wf(),
    ensures
        op.parts@.len() == 1 ==> r == Ok::<Node, ParsingError>(
            Node::Instruction(
                if checked {
                    Instruction::U32CheckedRotl
                } else {
                    Instruction::U32Rotl
                },
            ),
        ),
        op.parts@.len() > 2 ==> r == Err::<Node, ParsingError>(ParsingError::ExtraParam),
        op.parts@.len() == 2 && parses_dec(op.parts@[1]@, 31) ==> r == Ok::<Node, ParsingError>(
            Node::Instruction(
                if checked {
                    Instruction::U32CheckedRotlImm(digits_val(op.parts@[1]@) as u8)
                } else {
                    Instruction::U32RotlImm(digits_val(op.parts@[1]@) as u8)
                },
            ),
        ),
        op.parts@.len() == 2 && !parses_dec(op.parts@[1]@, 31) ==> r is Err,
{
    proof {
        if op.parts@.len() >= 2 && all_digits(op.parts@[1]@) {
            lemma_digits_val_nonneg(op.parts@[1]@);
        }
    }
    if op.num_parts() == 1 {
        if checked {
            Ok(Node::Instruction(Instruction::U32CheckedRotl))
        } else {
            Ok(Node::Instruction(Instruction::U32Rotl))
        }
    } else if op.num_parts() == 2 {
        let n = parse_checked_param_u8(op, 1, MAX_U32_ROTATE_VALUE)?;
        if checked {
            Ok(Node::Instruction(Instruction::U32CheckedRotlImm(n)))
        } else {
            Ok(Node::Instruction(Instruction::U32RotlImm(n)))
        }
    } else {
        Err(ParsingError::ExtraParam)
    }
}

} // verus!
