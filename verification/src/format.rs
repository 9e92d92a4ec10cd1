//! The instruction formats, and which one a line selects.
//!
//! A line's mnemonic fixes how many operands it takes. Where one mnemonic has
//! several encodings, the shapes of the operands pick among them: whether an
//! operand starts with the register marker, or is one of the keywords `I`,
//! `DT`, `ST`, `F`, `B` and `K`. Only then are the operands checked against
//! the fields of the format that was picked: the shape selects the encoding,
//! and a range is checked only for the encoding that was selected.

use crate::error::{located, AsmErrorView, ErrorKind};
use crate::field::{lemma_total_width_of, well_formed, Field};
use crate::mnemonic::Mnemonic;
use crate::number::number_value;
use crate::operand::{literal_field, register_field, shape_of, Keyword, Shape};
use crate::token::tokens_of;
use vstd::arithmetic::power2::lemma2_to64;
use vstd::prelude::*;

verus! {

/// How the sixteen bits of an instruction are divided. An operand is named by
/// its position in the line, the first operand being 1.
#[derive(Clone, Copy, Debug, PartialEq, Eq, Structural)]
pub enum Format {
    /// A constant word.
    Whole { word: u16 },
    /// An opcode nibble, then a 12-bit address.
    Address { opcode: u8, address: usize },
    /// An opcode nibble, a register, then a byte.
    RegisterByte { opcode: u8, x: usize, byte: usize },
    /// An opcode nibble, two registers, then a constant nibble.
    RegisterPair { opcode: u8, x: usize, y: usize, tail: u8 },
    /// An opcode nibble, a register, then a constant byte.
    RegisterTail { opcode: u8, x: usize, tail: u8 },
    /// An opcode nibble, two registers, then a nibble operand.
    RegisterPairNibble { opcode: u8, x: usize, y: usize, nibble: usize },
}

impl Format {
    /// The constants fit their fields.
    pub open spec fn valid(self) -> bool {
        match self {
            Format::Whole { .. } => true,
            Format::Address { opcode, .. } => opcode < 16,
            Format::RegisterByte { opcode, .. } => opcode < 16,
            Format::RegisterPair { opcode, tail, .. } => opcode < 16 && tail < 16,
            Format::RegisterTail { opcode, .. } => opcode < 16,
            Format::RegisterPairNibble { opcode, .. } => opcode < 16,
        }
    }

    /// Every operand that the format names is among `count` tokens, the
    /// mnemonic included.
    pub open spec fn within(self, count: nat) -> bool {
        match self {
            Format::Whole { .. } => true,
            Format::Address { address, .. } => address < count,
            Format::RegisterByte { x, byte, .. } => x < count && byte < count,
            Format::RegisterPair { x, y, .. } => x < count && y < count,
            Format::RegisterTail { x, .. } => x < count,
            Format::RegisterPairNibble { x, y, nibble, .. } => x < count && y < count && nibble
                < count,
        }
    }
}

/// A constant field of four bits.
pub open spec fn nibble(value: u8) -> Field {
    Field { width: 4, value: value as u16 }
}

/// A constant field of eight bits.
pub open spec fn byte(value: u8) -> Field {
    Field { width: 8, value: value as u16 }
}

/// The format that the operands' shapes select, for a line that has as many
/// operands as its mnemonic takes.
pub open spec fn format_by_shape(m: Mnemonic, tokens: Seq<Seq<char>>) -> Result<
    Format,
    ErrorKind,
> {
    match m {
        Mnemonic::Sys => Ok(Format::Address { opcode: 0x0, address: 1 }),
        Mnemonic::Cls => Ok(Format::Whole { word: 0x00E0 }),
        Mnemonic::Ret => Ok(Format::Whole { word: 0x00EE }),
        Mnemonic::Jp => if tokens.len() == 2 {
            Ok(Format::Address { opcode: 0x1, address: 1 })
        } else {
            match shape_of(tokens[1]) {
                Shape::Register => Ok(Format::Address { opcode: 0xB, address: 2 }),
                _ => Err(ErrorKind::NotRegister { operand: 1 }),
            }
        },
        Mnemonic::Call => Ok(Format::Address { opcode: 0x2, address: 1 }),
        Mnemonic::Se => match shape_of(tokens[2]) {
            Shape::Register => Ok(Format::RegisterPair { opcode: 0x5, x: 1, y: 2, tail: 0x0 }),
            _ => Ok(Format::RegisterByte { opcode: 0x3, x: 1, byte: 2 }),
        },
        Mnemonic::Sne => match shape_of(tokens[2]) {
            Shape::Register => Ok(Format::RegisterPair { opcode: 0x9, x: 1, y: 2, tail: 0x0 }),
            _ => Ok(Format::RegisterByte { opcode: 0x4, x: 1, byte: 2 }),
        },
        Mnemonic::Add => match (shape_of(tokens[1]), shape_of(tokens[2])) {
            (Shape::Keyword(Keyword::I), _) => Ok(
                Format::RegisterTail { opcode: 0xF, x: 2, tail: 0x1E },
            ),
            (_, Shape::Register) => Ok(
                Format::RegisterPair { opcode: 0x8, x: 1, y: 2, tail: 0x4 },
            ),
            _ => Ok(Format::RegisterByte { opcode: 0x7, x: 1, byte: 2 }),
        },
        Mnemonic::Or | Mnemonic::And | Mnemonic::Xor | Mnemonic::Sub | Mnemonic::Subn => Ok(
            Format::RegisterPair { opcode: 0x8, x: 1, y: 2, tail: m.alu_selector().unwrap() },
        ),
        Mnemonic::Shr => Ok(Format::RegisterTail { opcode: 0x8, x: 1, tail: 0xF6 }),
        Mnemonic::Shl => Ok(Format::RegisterTail { opcode: 0x8, x: 1, tail: 0xFE }),
        Mnemonic::Rnd => Ok(Format::RegisterByte { opcode: 0xC, x: 1, byte: 2 }),
        Mnemonic::Drw => Ok(Format::RegisterPairNibble { opcode: 0xD, x: 1, y: 2, nibble: 3 }),
        Mnemonic::Skp => Ok(Format::RegisterTail { opcode: 0xE, x: 1, tail: 0x9E }),
        Mnemonic::Sknp => Ok(Format::RegisterTail { opcode: 0xE, x: 1, tail: 0xA1 }),
        Mnemonic::Ld => match (shape_of(tokens[1]), shape_of(tokens[2])) {
            (Shape::Keyword(Keyword::I), Shape::Register) => Ok(
                Format::RegisterTail { opcode: 0xF, x: 2, tail: 0x55 },
            ),
            (Shape::Keyword(Keyword::I), _) => Ok(Format::Address { opcode: 0xA, address: 2 }),
            (Shape::Keyword(Keyword::Dt), _) => Ok(
                Format::RegisterTail { opcode: 0xF, x: 2, tail: 0x15 },
            ),
            (Shape::Keyword(Keyword::St), _) => Ok(
                Format::RegisterTail { opcode: 0xF, x: 2, tail: 0x18 },
            ),
            (Shape::Keyword(Keyword::F), _) => Ok(
                Format::RegisterTail { opcode: 0xF, x: 2, tail: 0x29 },
            ),
            (Shape::Keyword(Keyword::B), _) => Ok(
                Format::RegisterTail { opcode: 0xF, x: 2, tail: 0x33 },
            ),
            (Shape::Register, Shape::Register) => Ok(
                Format::RegisterPair { opcode: 0x8, x: 1, y: 2, tail: 0x0 },
            ),
            (Shape::Register, Shape::Keyword(Keyword::Dt)) => Ok(
                Format::RegisterTail { opcode: 0xF, x: 1, tail: 0x07 },
            ),
            (Shape::Register, Shape::Keyword(Keyword::I)) => Ok(
                Format::RegisterTail { opcode: 0xF, x: 1, tail: 0x65 },
            ),
            (Shape::Register, Shape::Keyword(Keyword::K)) => Ok(
                Format::RegisterTail { opcode: 0xF, x: 1, tail: 0x0A },
            ),
            (Shape::Register, _) => Ok(Format::RegisterByte { opcode: 0x6, x: 1, byte: 2 }),
            _ => Err(ErrorKind::NotRegister { operand: 1 }),
        },
    }
}

/// The format of a line whose mnemonic is `m`: the number of operands is
/// checked first, and no operand is looked at where it is wrong.
pub open spec fn format_of(m: Mnemonic, tokens: Seq<Seq<char>>) -> Result<Format, ErrorKind> {
    if tokens.len() - 1 > m.max_operands() {
        Err(ErrorKind::TooManyOperands)
    } else if tokens.len() - 1 < m.min_operands() {
        Err(ErrorKind::TooFewOperands)
    } else {
        format_by_shape(m, tokens)
    }
}

/// The fields of a line in a given format. The operands are checked in the
/// order of their fields, and the first that fails gives the error.
pub open spec fn fields_of(format: Format, tokens: Seq<Seq<char>>) -> Result<
    Seq<Field>,
    ErrorKind,
> {
    match format {
        Format::Whole { word } => Ok(seq![Field { width: 16, value: word }]),
        Format::Address { opcode, address } => match literal_field(
            tokens[address as int],
            address,
            12,
        ) {
            Err(kind) => Err(kind),
            Ok(a) => Ok(seq![nibble(opcode), a]),
        },
        Format::RegisterByte { opcode, x, byte } => match register_field(tokens[x as int], x) {
            Err(kind) => Err(kind),
            Ok(rx) => match literal_field(tokens[byte as int], byte, 8) {
                Err(kind) => Err(kind),
                Ok(b) => Ok(seq![nibble(opcode), rx, b]),
            },
        },
        Format::RegisterPair { opcode, x, y, tail } => match register_field(tokens[x as int], x) {
            Err(kind) => Err(kind),
            Ok(rx) => match register_field(tokens[y as int], y) {
                Err(kind) => Err(kind),
                Ok(ry) => Ok(seq![nibble(opcode), rx, ry, nibble(tail)]),
            },
        },
        Format::RegisterTail { opcode, x, tail } => match register_field(tokens[x as int], x) {
            Err(kind) => Err(kind),
            Ok(rx) => Ok(seq![nibble(opcode), rx, byte(tail)]),
        },
        Format::RegisterPairNibble { opcode, x, y, nibble: n } => match register_field(
            tokens[x as int],
            x,
        ) {
            Err(kind) => Err(kind),
            Ok(rx) => match register_field(tokens[y as int], y) {
                Err(kind) => Err(kind),
                Ok(ry) => match literal_field(tokens[n as int], n, 4) {
                    Err(kind) => Err(kind),
                    Ok(last) => Ok(seq![nibble(opcode), rx, ry, last]),
                },
            },
        },
    }
}

/// The fields that a sequence of tokens encodes to, or why it is rejected.
/// A line without a mnemonic, its first token being empty, has too few
/// operands.
pub open spec fn encoding(tokens: Seq<Seq<char>>) -> Result<Seq<Field>, ErrorKind> {
    if tokens.len() == 0 || tokens[0].len() == 0 {
        Err(ErrorKind::TooFewOperands)
    } else {
        match Mnemonic::named(tokens[0]) {
            None => Err(ErrorKind::UnknownMnemonic),
            Some(m) => match format_of(m, tokens) {
                Err(kind) => Err(kind),
                Ok(format) => fields_of(format, tokens),
            },
        }
    }
}

/// The first token, which an error names as the line's mnemonic.
pub open spec fn mnemonic_text(tokens: Seq<Seq<char>>) -> Seq<char> {
    if tokens.len() == 0 {
        Seq::empty()
    } else {
        tokens[0]
    }
}

/// What the tokens of line number `ln` encode to.
pub open spec fn encoding_at(tokens: Seq<Seq<char>>, ln: u64) -> Result<
    Seq<Field>,
    AsmErrorView,
> {
    located(encoding(tokens), ln, mnemonic_text(tokens))
}

/// What the source line `line`, with number `ln`, assembles to.
pub open spec fn assembled(line: Seq<char>, ln: u64) -> Result<Seq<Field>, AsmErrorView> {
    encoding_at(tokens_of(line), ln)
}

/// A number operand that is accepted gives a valid field of the width asked
/// for.
pub proof fn lemma_literal_field_valid(token: Seq<char>, operand: usize, bits: u8)
    requires
        bits == 4 || bits == 8 || bits == 12,
    ensures
        literal_field(token, operand, bits) matches Ok(field) ==> field.valid() && field.width
            == bits && field.value == number_value(token),
{
    lemma2_to64();
}

/// The format that a line selects has constants that fit their fields.
pub proof fn lemma_format_valid(m: Mnemonic, tokens: Seq<Seq<char>>)
    ensures
        format_of(m, tokens) matches Ok(format) ==> format.valid() && format.within(tokens.len()),
{
}

/// The fields of a line in a valid format are valid and fill 16 bits.
pub proof fn lemma_fields_well_formed(format: Format, tokens: Seq<Seq<char>>)
    requires
        format.valid(),
    ensures
        fields_of(format, tokens) matches Ok(fields) ==> well_formed(fields),
{
    lemma2_to64();
    if let Ok(fields) = fields_of(format, tokens) {
        lemma_total_width_of(fields);
        match format {
            Format::Whole { .. } => {},
            Format::Address { address, .. } => {
                lemma_literal_field_valid(tokens[address as int], address, 12);
            },
            Format::RegisterByte { x, byte, .. } => {
                lemma_literal_field_valid(tokens[x as int].skip(1), x, 4);
                lemma_literal_field_valid(tokens[byte as int], byte, 8);
            },
            Format::RegisterPair { x, y, .. } => {
                lemma_literal_field_valid(tokens[x as int].skip(1), x, 4);
                lemma_literal_field_valid(tokens[y as int].skip(1), y, 4);
            },
            Format::RegisterTail { x, .. } => {
                lemma_literal_field_valid(tokens[x as int].skip(1), x, 4);
            },
            Format::RegisterPairNibble { x, y, nibble, .. } => {
                lemma_literal_field_valid(tokens[x as int].skip(1), x, 4);
                lemma_literal_field_valid(tokens[y as int].skip(1), y, 4);
                lemma_literal_field_valid(tokens[nibble as int], nibble, 4);
            },
        }
    }
}

/// Every line that is accepted encodes to valid fields that fill exactly 16
/// bits.
pub proof fn lemma_encoding_well_formed(tokens: Seq<Seq<char>>)
    ensures
        encoding(tokens) matches Ok(fields) ==> well_formed(fields),
{
    if let Ok(fields) = encoding(tokens) {
        let m = Mnemonic::named(tokens[0]).unwrap();
        lemma_format_valid(m, tokens);
        lemma_fields_well_formed(format_of(m, tokens).unwrap(), tokens);
    }
}

} // verus!
