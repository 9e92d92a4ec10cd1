//! Encoding the tokens of a line.

use crate::error::{located, reject, AsmError, AsmErrorView, ErrorKind};
use crate::field::{lemma_total_width_of, well_formed, Field, Instruction};
use crate::format::{
    assembled, encoding_at, fields_of, format_of, lemma_encoding_well_formed, mnemonic_text,
    Format,
};
use crate::mnemonic::Mnemonic;
use crate::operand::{
    check_less_than_16, check_less_than_256, check_less_than_4096, classify,
    process_register_arg, Keyword, Shape,
};
use crate::token::{texts, tokenize};
use vstd::arithmetic::power2::lemma2_to64;
use vstd::prelude::*;

verus! {

/// What encoding returned, with the instruction and the error by their views.
pub open spec fn encoded(result: Result<Instruction, AsmError>) -> Result<
    Seq<Field>,
    AsmErrorView,
> {
    match result {
        Ok(instruction) => Ok(instruction@),
        Err(error) => Err(error@),
    }
}

/// Checks the number of operands against what the mnemonic takes.
fn check_arity(m: Mnemonic, count: usize) -> (r: Result<(), ErrorKind>)
    ensures
        r == if count - 1 > m.max_operands() {
            Err::<(), ErrorKind>(ErrorKind::TooManyOperands)
        } else if count - 1 < m.min_operands() {
            Err(ErrorKind::TooFewOperands)
        } else {
            Ok(())
        },
{
    let (least, most): (usize, usize) = m.operand_bounds();
    if count > most + 1 {
        Err(ErrorKind::TooManyOperands)
    } else if count < least + 1 {
        Err(ErrorKind::TooFewOperands)
    } else {
        Ok(())
    }
}

/// Selects the format of a line by its mnemonic, the number of its operands
/// and their shapes.
pub fn select_format(m: Mnemonic, tokens: &Vec<String>) -> (r: Result<Format, ErrorKind>)
    ensures
        r == format_of(m, texts(tokens@)),
        r matches Ok(format) ==> format.valid() && format.within(tokens@.len()),
{
    match check_arity(m, tokens.len()) {
        Err(kind) => {
            return Err(kind);
        },
        Ok(()) => {},
    }
    let format = match m {
        Mnemonic::Sys => Format::Address { opcode: 0x0, address: 1 },
        Mnemonic::Cls => Format::Whole { word: 0x00E0 },
        Mnemonic::Ret => Format::Whole { word: 0x00EE },
        Mnemonic::Jp => {
            if tokens.len() == 2 {
                Format::Address { opcode: 0x1, address: 1 }
            } else {
                match classify(tokens[1].as_str()) {
                    Shape::Register => Format::Address { opcode: 0xB, address: 2 },
                    _ => {
                        return Err(ErrorKind::NotRegister { operand: 1 });
                    },
                }
            }
        },
        Mnemonic::Call => Format::Address { opcode: 0x2, address: 1 },
        Mnemonic::Se => match classify(tokens[2].as_str()) {
            Shape::Register => Format::RegisterPair { opcode: 0x5, x: 1, y: 2, tail: 0x0 },
            _ => Format::RegisterByte { opcode: 0x3, x: 1, byte: 2 },
        },
        Mnemonic::Sne => match classify(tokens[2].as_str()) {
            Shape::Register => Format::RegisterPair { opcode: 0x9, x: 1, y: 2, tail: 0x0 },
            _ => Format::RegisterByte { opcode: 0x4, x: 1, byte: 2 },
        },
        Mnemonic::Add => match (classify(tokens[1].as_str()), classify(tokens[2].as_str())) {
            (Shape::Keyword(Keyword::I), _) => Format::RegisterTail {
                opcode: 0xF,
                x: 2,
                tail: 0x1E,
            },
            (_, Shape::Register) => Format::RegisterPair { opcode: 0x8, x: 1, y: 2, tail: 0x4 },
            _ => Format::RegisterByte { opcode: 0x7, x: 1, byte: 2 },
        },
        Mnemonic::Or => Format::RegisterPair { opcode: 0x8, x: 1, y: 2, tail: 0x1 },
        Mnemonic::And => Format::RegisterPair { opcode: 0x8, x: 1, y: 2, tail: 0x2 },
        Mnemonic::Xor => Format::RegisterPair { opcode: 0x8, x: 1, y: 2, tail: 0x3 },
        Mnemonic::Sub => Format::RegisterPair { opcode: 0x8, x: 1, y: 2, tail: 0x5 },
        Mnemonic::Subn => Format::RegisterPair { opcode: 0x8, x: 1, y: 2, tail: 0x7 },
        Mnemonic::Shr => Format::RegisterTail { opcode: 0x8, x: 1, tail: 0xF6 },
        Mnemonic::Shl => Format::RegisterTail { opcode: 0x8, x: 1, tail: 0xFE },
        Mnemonic::Rnd => Format::RegisterByte { opcode: 0xC, x: 1, byte: 2 },
        Mnemonic::Drw => Format::RegisterPairNibble { opcode: 0xD, x: 1, y: 2, nibble: 3 },
        Mnemonic::Skp => Format::RegisterTail { opcode: 0xE, x: 1, tail: 0x9E },
        Mnemonic::Sknp => Format::RegisterTail { opcode: 0xE, x: 1, tail: 0xA1 },
        Mnemonic::Ld => match (classify(tokens[1].as_str()), classify(tokens[2].as_str())) {
            (Shape::Keyword(Keyword::I), Shape::Register) => Format::RegisterTail {
                opcode: 0xF,
                x: 2,
                tail: 0x55,
            },
            (Shape::Keyword(Keyword::I), _) => Format::Address { opcode: 0xA, address: 2 },
            (Shape::Keyword(Keyword::Dt), _) => Format::RegisterTail {
                opcode: 0xF,
                x: 2,
                tail: 0x15,
            },
            (Shape::Keyword(Keyword::St), _) => Format::RegisterTail {
                opcode: 0xF,
                x: 2,
                tail: 0x18,
            },
            (Shape::Keyword(Keyword::F), _) => Format::RegisterTail {
                opcode: 0xF,
                x: 2,
                tail: 0x29,
            },
            (Shape::Keyword(Keyword::B), _) => Format::RegisterTail {
                opcode: 0xF,
                x: 2,
                tail: 0x33,
            },
            (Shape::Register, Shape::Register) => Format::RegisterPair {
                opcode: 0x8,
                x: 1,
                y: 2,
                tail: 0x0,
            },
            (Shape::Register, Shape::Keyword(Keyword::Dt)) => Format::RegisterTail {
                opcode: 0xF,
                x: 1,
                tail: 0x07,
            },
            (Shape::Register, Shape::Keyword(Keyword::I)) => Format::RegisterTail {
                opcode: 0xF,
                x: 1,
                tail: 0x65,
            },
            (Shape::Register, Shape::Keyword(Keyword::K)) => Format::RegisterTail {
                opcode: 0xF,
                x: 1,
                tail: 0x0A,
            },
            (Shape::Register, _) => Format::RegisterByte { opcode: 0x6, x: 1, byte: 2 },
            _ => {
                return Err(ErrorKind::NotRegister { operand: 1 });
            },
        },
    };
    Ok(format)
}

/// Checks the operands of a line against the fields of its format and makes
/// the instruction.
pub(crate) fn fill(format: Format, tokens: &Vec<String>, ln: u64) -> (r: Result<Instruction, AsmError>)
    requires
        format.valid(),
        format.within(tokens@.len()),
        tokens@.len() >= 1,
    ensures
        encoded(r) == located(fields_of(format, texts(tokens@)), ln, texts(tokens@)[0]),
{
    proof {
        lemma2_to64();
    }
    let call = tokens[0].as_str();
    match format {
        Format::Whole { word } => {
            let whole = Field { width: 16, value: word };
            let fields = vec![whole];
            proof {
                assert(fields@ =~= seq![whole]);
                lemma_total_width_of(fields@);
            }
            Ok(Instruction::of(fields))
        },
        Format::Address { opcode, address } => {
            let a = check_less_than_4096(call, ln, address, tokens[address].as_str())?;
            let op = Field { width: 4, value: opcode as u16 };
            let fields = vec![op, a];
            proof {
                assert(fields@ =~= seq![op, a]);
                lemma_total_width_of(fields@);
            }
            Ok(Instruction::of(fields))
        },
        Format::RegisterByte { opcode, x, byte } => {
            let rx = process_register_arg(call, ln, x, tokens[x].as_str())?;
            let b = check_less_than_256(call, ln, byte, tokens[byte].as_str())?;
            let op = Field { width: 4, value: opcode as u16 };
            let fields = vec![op, rx, b];
            proof {
                assert(fields@ =~= seq![op, rx, b]);
                lemma_total_width_of(fields@);
            }
            Ok(Instruction::of(fields))
        },
        Format::RegisterPair { opcode, x, y, tail } => {
            let rx = process_register_arg(call, ln, x, tokens[x].as_str())?;
            let ry = process_register_arg(call, ln, y, tokens[y].as_str())?;
            let op = Field { width: 4, value: opcode as u16 };
            let last = Field { width: 4, value: tail as u16 };
            let fields = vec![op, rx, ry, last];
            proof {
                assert(fields@ =~= seq![op, rx, ry, last]);
                lemma_total_width_of(fields@);
            }
            Ok(Instruction::of(fields))
        },
        Format::RegisterTail { opcode, x, tail } => {
            let rx = process_register_arg(call, ln, x, tokens[x].as_str())?;
            let op = Field { width: 4, value: opcode as u16 };
            let last = Field { width: 8, value: tail as u16 };
            let fields = vec![op, rx, last];
            proof {
                assert(fields@ =~= seq![op, rx, last]);
                lemma_total_width_of(fields@);
            }
            Ok(Instruction::of(fields))
        },
        Format::RegisterPairNibble { opcode, x, y, nibble } => {
            let rx = process_register_arg(call, ln, x, tokens[x].as_str())?;
            let ry = process_register_arg(call, ln, y, tokens[y].as_str())?;
            let last = check_less_than_16(call, ln, nibble, tokens[nibble].as_str())?;
            let op = Field { width: 4, value: opcode as u16 };
            let fields = vec![op, rx, ry, last];
            proof {
                assert(fields@ =~= seq![op, rx, ry, last]);
                lemma_total_width_of(fields@);
            }
            Ok(Instruction::of(fields))
        },
    }
}

/// What a register-to-register line with the last nibble `delim` encodes to:
/// it takes two registers, and has the opcode nibble 8.
pub open spec fn alu_encoding(tokens: Seq<Seq<char>>, delim: u8) -> Result<
    Seq<Field>,
    ErrorKind,
> {
    if tokens.len() > 3 {
        Err(ErrorKind::TooManyOperands)
    } else if tokens.len() < 3 {
        Err(ErrorKind::TooFewOperands)
    } else {
        fields_of(Format::RegisterPair { opcode: 0x8, x: 1, y: 2, tail: delim }, tokens)
    }
}

/// Encodes one of the register-to-register operations `OR`, `AND`, `XOR`,
/// `SUB` and `SUBN`, which differ in their last nibble, `delim`, only.
#[allow(non_snake_case)]
pub fn process_8XYZ(tokens: &Vec<String>, ln: u64, delim: u8) -> (r: Result<
    Instruction,
    AsmError,
>)
    requires
        delim < 16,
    ensures
        encoded(r) == located(
            alu_encoding(texts(tokens@), delim),
            ln,
            mnemonic_text(texts(tokens@)),
        ),
{
    if tokens.len() > 3 {
        Err(reject(ln, tokens[0].as_str(), ErrorKind::TooManyOperands))
    } else if tokens.len() < 3 {
        if tokens.len() == 0 {
            proof {
                reveal_strlit("");
                assert(""@ =~= Seq::<char>::empty());
            }
            Err(reject(ln, "", ErrorKind::TooFewOperands))
        } else {
            Err(reject(ln, tokens[0].as_str(), ErrorKind::TooFewOperands))
        }
    } else {
        fill(Format::RegisterPair { opcode: 0x8, x: 1, y: 2, tail: delim }, tokens, ln)
    }
}

/// Encodes the tokens of line number `ln`: the first is the mnemonic, the
/// others are its operands.
pub fn encode(tokens: &Vec<String>, ln: u64) -> (r: Result<Instruction, AsmError>)
    ensures
        encoded(r) == encoding_at(texts(tokens@), ln),
        r matches Ok(instruction) ==> well_formed(instruction@),
{
    if tokens.len() == 0 {
        proof {
            reveal_strlit("");
            assert(""@ =~= Seq::<char>::empty());
        }
        return Err(reject(ln, "", ErrorKind::TooFewOperands));
    }
    let call = tokens[0].as_str();
    if call.is_empty() {
        return Err(reject(ln, call, ErrorKind::TooFewOperands));
    }
    let r = match Mnemonic::recognize(call) {
        None => Err(reject(ln, call, ErrorKind::UnknownMnemonic)),
        Some(m) => match m.selector() {
            Some(delim) => process_8XYZ(tokens, ln, delim),
            None => match select_format(m, tokens) {
                Err(kind) => Err(reject(ln, call, kind)),
                Ok(format) => fill(format, tokens, ln),
            },
        },
    };
    proof {
        lemma_encoding_well_formed(texts(tokens@));
    }
    r
}

/// Assembles one source line, whose number is `ln`: splits it into tokens
/// and encodes them.
pub fn parse_line(line: &str, ln: u64) -> (r: Result<Instruction, AsmError>)
    ensures
        encoded(r) == assembled(line@, ln),
        r matches Ok(instruction) ==> well_formed(instruction@),
{
    let tokens = tokenize(line);
    encode(&tokens, ln)
}

} // verus!
