//! A line-at-a-time assembler for the CHIP-8 instruction set.
//!
//! Each source line names one operation and its operands. [`parse_line`]
//! splits the line into tokens, selects the instruction format that the
//! mnemonic and the shapes of the operands call for, checks every operand
//! against the width of its field, and returns the instruction as a sequence
//! of bit fields that fill sixteen bits. [`assemble`] runs a whole listing
//! and stops at the first line that is rejected.
//!
//! - [`token`]: a line is split into tokens.
//! - [`mnemonic`]: the operations, their names and how many operands each
//!   takes.
//! - [`number`], [`operand`]: decimal numbers, the shapes of operands, and
//!   the checks of a register, a nibble, a byte and an address.
//! - [`format`]: the instruction formats, and the table that says which
//!   format a line has and to what fields it encodes.
//! - [`encoder`]: the encoder itself.
//! - [`field`]: fields and instructions, as binary digits and as a word.
//! - [`error`]: why a line is rejected, and the message that says so.
//! - [`listing`]: a listing is assembled line by line.
//! - [`laws`]: what is proved of all lines.
//!
//! A line is rejected as a whole: an error carries no field, and a listing's
//! output holds whole instructions only.

pub mod encoder;
pub mod error;
pub mod field;
pub mod format;
pub mod laws;
pub mod listing;
pub mod mnemonic;
pub mod number;
pub mod operand;
pub mod token;

pub use encoder::{encode, parse_line, process_8XYZ};
pub use error::{AsmError, ErrorKind};
pub use field::{Field, Instruction};
pub use format::Format;
pub use listing::assemble;
pub use mnemonic::Mnemonic;
pub use operand::{
    check_less_than_16, check_less_than_256, check_less_than_4096, classify,
    process_register_arg, Keyword, Shape,
};
pub use token::tokenize;
