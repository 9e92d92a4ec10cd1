//! Checking one operand against the width of its field.

use crate::error::{located, outcome, reject, AsmError, ErrorKind};
use crate::field::Field;
use crate::number::{is_number, number_value, scan_number, Scan};
use crate::token::{chars_of, spells};
use vstd::arithmetic::power2::{lemma2_to64, pow2};
use vstd::prelude::*;

verus! {

/// The character that marks a register operand.
pub const REGISTER_MARKER: char = 'V';

/// The field for a number operand: the operand at position `operand` is
/// `token` and goes into a field of `bits` bits.
pub open spec fn literal_field(token: Seq<char>, operand: usize, bits: u8) -> Result<
    Field,
    ErrorKind,
> {
    if !is_number(token) {
        Err(ErrorKind::NotNumber { operand, bits })
    } else if number_value(token) >= pow2(bits as nat) {
        Err(ErrorKind::OutOfRange { operand, bits })
    } else {
        Ok(Field { width: bits, value: number_value(token) as u16 })
    }
}

/// The token starts with the register marker.
pub open spec fn is_register_shaped(token: Seq<char>) -> bool {
    token.len() > 0 && token[0] == REGISTER_MARKER
}

/// The words that stand for a special register of the machine. Each is taken
/// as such only in some operand positions of some operations.
#[derive(Clone, Copy, Debug, PartialEq, Eq, Structural)]
pub enum Keyword {
    /// `I`, the index register.
    I,
    /// `DT`, the delay timer.
    Dt,
    /// `ST`, the sound timer.
    St,
    /// `F`, the sprite of a digit.
    F,
    /// `B`, the decimal digits of a register.
    B,
    /// `K`, the next key pressed.
    K,
}

impl Keyword {
    /// The keyword as it stands in a source line.
    pub open spec fn name(self) -> Seq<char> {
        match self {
            Keyword::I => "I"@,
            Keyword::Dt => "DT"@,
            Keyword::St => "ST"@,
            Keyword::F => "F"@,
            Keyword::B => "B"@,
            Keyword::K => "K"@,
        }
    }
}

/// What kind of operand a token is, by its looks alone: whether a number is
/// well formed and in range is not asked here.
#[derive(Clone, Copy, Debug, PartialEq, Eq, Structural)]
pub enum Shape {
    /// The token starts with the register marker.
    Register,
    /// The token is a keyword.
    Keyword(Keyword),
    /// Anything else: the token is taken for a number.
    Literal,
}

/// The shape of an operand token.
pub open spec fn shape_of(token: Seq<char>) -> Shape {
    if is_register_shaped(token) {
        Shape::Register
    } else if token == Keyword::I.name() {
        Shape::Keyword(Keyword::I)
    } else if token == Keyword::Dt.name() {
        Shape::Keyword(Keyword::Dt)
    } else if token == Keyword::St.name() {
        Shape::Keyword(Keyword::St)
    } else if token == Keyword::F.name() {
        Shape::Keyword(Keyword::F)
    } else if token == Keyword::B.name() {
        Shape::Keyword(Keyword::B)
    } else if token == Keyword::K.name() {
        Shape::Keyword(Keyword::K)
    } else {
        Shape::Literal
    }
}

/// The field for a register operand: the marker, then the register's index
/// as a number of four bits.
pub open spec fn register_field(token: Seq<char>, operand: usize) -> Result<Field, ErrorKind> {
    if !is_register_shaped(token) {
        Err(ErrorKind::NotRegister { operand })
    } else {
        literal_field(token.skip(1), operand, 4)
    }
}

/// Checks a number operand against a field of `bits` bits.
fn check_literal(call: &str, ln: u64, arg_num: usize, number: &[char], bits: u8) -> (r: Result<
    Field,
    AsmError,
>)
    requires
        bits == 4 || bits == 8 || bits == 12,
    ensures
        outcome(r) == located(literal_field(number@, arg_num, bits), ln, call@),
{
    proof {
        lemma2_to64();
    }
    let limit: u16 = if bits == 4 {
        15
    } else if bits == 8 {
        255
    } else {
        4095
    };
    match scan_number(number, limit) {
        Scan::NotNumber => Err(reject(ln, call, ErrorKind::NotNumber { operand: arg_num, bits })),
        Scan::Above => Err(reject(ln, call, ErrorKind::OutOfRange { operand: arg_num, bits })),
        Scan::Value(value) => Ok(Field { width: bits, value }),
    }
}

/// Checks an address operand: a decimal number from 0 to 4095, for a field of
/// twelve bits. `call` is the line's mnemonic, `ln` its number and `arg_num`
/// the operand's position, for the error.
pub fn check_less_than_4096(call: &str, ln: u64, arg_num: usize, number: &str) -> (r: Result<
    Field,
    AsmError,
>)
    ensures
        outcome(r) == located(literal_field(number@, arg_num, 12), ln, call@),
{
    let digits = chars_of(number);
    check_literal(call, ln, arg_num, digits.as_slice(), 12)
}

/// Checks a byte operand: a decimal number from 0 to 255, for a field of
/// eight bits.
pub fn check_less_than_256(call: &str, ln: u64, arg_num: usize, number: &str) -> (r: Result<
    Field,
    AsmError,
>)
    ensures
        outcome(r) == located(literal_field(number@, arg_num, 8), ln, call@),
{
    let digits = chars_of(number);
    check_literal(call, ln, arg_num, digits.as_slice(), 8)
}

/// Checks a nibble operand: a decimal number from 0 to 15, for a field of
/// four bits.
pub fn check_less_than_16(call: &str, ln: u64, arg_num: usize, number: &str) -> (r: Result<
    Field,
    AsmError,
>)
    ensures
        outcome(r) == located(literal_field(number@, arg_num, 4), ln, call@),
{
    let digits = chars_of(number);
    check_literal(call, ln, arg_num, digits.as_slice(), 4)
}

/// Tells whether the letters of a token start with the register marker.
fn has_register_marker(token: &[char]) -> (r: bool)
    ensures
        r == is_register_shaped(token@),
{
    token.len() > 0 && token[0] == REGISTER_MARKER
}

/// Finds the shape of an operand token.
pub fn classify(token: &str) -> (shape: Shape)
    ensures
        shape == shape_of(token@),
{
    let letters = chars_of(token);
    let word = letters.as_slice();
    if has_register_marker(word) {
        Shape::Register
    } else if spells(word, "I") {
        Shape::Keyword(Keyword::I)
    } else if spells(word, "DT") {
        Shape::Keyword(Keyword::Dt)
    } else if spells(word, "ST") {
        Shape::Keyword(Keyword::St)
    } else if spells(word, "F") {
        Shape::Keyword(Keyword::F)
    } else if spells(word, "B") {
        Shape::Keyword(Keyword::B)
    } else if spells(word, "K") {
        Shape::Keyword(Keyword::K)
    } else {
        Shape::Literal
    }
}

/// Checks a register operand: the register marker, then the register's index,
/// a decimal number from 0 to 15.
pub fn process_register_arg(call: &str, ln: u64, arg_num: usize, reg: &str) -> (r: Result<
    Field,
    AsmError,
>)
    ensures
        outcome(r) == located(register_field(reg@, arg_num), ln, call@),
{
    let token = chars_of(reg);
    if has_register_marker(token.as_slice()) {
        let index = vstd::slice::slice_subrange(token.as_slice(), 1, token.len());
        check_literal(call, ln, arg_num, index, 4)
    } else {
        Err(reject(ln, call, ErrorKind::NotRegister { operand: arg_num }))
    }
}

} // verus!
