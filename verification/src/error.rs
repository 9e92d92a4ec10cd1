//! What can be wrong with a source line.

use crate::number::{append_decimal, decimal};
use vstd::prelude::*;

verus! {

/// The reason a line was rejected.
#[derive(Clone, Copy, Debug, PartialEq, Eq, Structural)]
pub enum ErrorKind {
    /// The line has more operands than the mnemonic takes.
    TooManyOperands,
    /// The line has fewer operands than the mnemonic takes, or no mnemonic.
    TooFewOperands,
    /// The operand at this position must be a register and does not start
    /// with the register marker.
    NotRegister { operand: usize },
    /// The operand at this position is a number too large for a field of
    /// `bits` bits.
    OutOfRange { operand: usize, bits: u8 },
    /// The operand at this position must be an unsigned decimal number, for a
    /// field of `bits` bits, and is not one.
    NotNumber { operand: usize, bits: u8 },
    /// The first token is not the name of an operation.
    UnknownMnemonic,
}

/// A rejected line: its number, its first token and the reason.
#[derive(Debug, PartialEq, Eq)]
pub struct AsmError {
    pub line: u64,
    pub mnemonic: String,
    pub kind: ErrorKind,
}

/// An [`AsmError`] with the mnemonic as a sequence of characters.
pub struct AsmErrorView {
    pub line: u64,
    pub mnemonic: Seq<char>,
    pub kind: ErrorKind,
}

impl Clone for AsmError {
    fn clone(&self) -> (copy: Self)
        ensures
            copy == *self,
    {
        AsmError { line: self.line, mnemonic: self.mnemonic.clone(), kind: self.kind }
    }
}

impl View for AsmError {
    type V = AsmErrorView;

    open spec fn view(&self) -> AsmErrorView {
        AsmErrorView { line: self.line, mnemonic: self.mnemonic@, kind: self.kind }
    }
}

impl ErrorKind {
    /// What is wrong, in words: the part of the message between the line
    /// number and the mnemonic.
    pub open spec fn cause(self) -> Seq<char> {
        match self {
            ErrorKind::TooManyOperands => "Too many arguments, "@,
            ErrorKind::TooFewOperands => "Too few arguments, "@,
            ErrorKind::NotRegister { operand } => "Argument "@ + decimal(operand as nat)
                + " is not a register, "@,
            ErrorKind::OutOfRange { operand, bits } => "Argument "@ + decimal(operand as nat)
                + " is out of range for "@ + decimal(bits as nat) + " bits, "@,
            ErrorKind::NotNumber { operand, bits } => "Argument "@ + decimal(operand as nat)
                + " is not a number of "@ + decimal(bits as nat) + " bits, "@,
            ErrorKind::UnknownMnemonic => "Unrecognized command: "@,
        }
    }
}

/// The message for an error: the line's number, what is wrong, then the
/// mnemonic.
pub open spec fn message_text(error: AsmErrorView) -> Seq<char> {
    "Line "@ + decimal(error.line as nat) + ": "@ + error.kind.cause() + error.mnemonic
}

impl AsmError {
    /// The message that reports this error.
    pub fn message(&self) -> (text: String)
        ensures
            text@ == message_text(self@),
    {
        let mut text = String::new();
        text.append("Line ");
        append_decimal(&mut text, self.line);
        text.append(": ");
        let ghost head = text@;
        assert(head =~= "Line "@ + decimal(self.line as nat) + ": "@);
        match self.kind {
            ErrorKind::TooManyOperands => {
                text.append("Too many arguments, ");
            },
            ErrorKind::TooFewOperands => {
                text.append("Too few arguments, ");
            },
            ErrorKind::NotRegister { operand } => {
                text.append("Argument ");
                append_decimal(&mut text, operand as u64);
                text.append(" is not a register, ");
            },
            ErrorKind::OutOfRange { operand, bits } => {
                text.append("Argument ");
                append_decimal(&mut text, operand as u64);
                text.append(" is out of range for ");
                append_decimal(&mut text, bits as u64);
                text.append(" bits, ");
            },
            ErrorKind::NotNumber { operand, bits } => {
                text.append("Argument ");
                append_decimal(&mut text, operand as u64);
                text.append(" is not a number of ");
                append_decimal(&mut text, bits as u64);
                text.append(" bits, ");
            },
            ErrorKind::UnknownMnemonic => {
                text.append("Unrecognized command: ");
            },
        }
        assert(text@ =~= head + self.kind.cause());
        text.append(self.mnemonic.as_str());
        text
    }
}

/// A result with the reason of a failure only: the line and the mnemonic are
/// still to be added.
pub open spec fn located<T>(
    result: Result<T, ErrorKind>,
    line: u64,
    mnemonic: Seq<char>,
) -> Result<T, AsmErrorView> {
    match result {
        Ok(value) => Ok(value),
        Err(kind) => Err(AsmErrorView { line, mnemonic, kind }),
    }
}

/// What a fallible step returned, with the error by its view.
pub open spec fn outcome<T>(result: Result<T, AsmError>) -> Result<T, AsmErrorView> {
    match result {
        Ok(value) => Ok(value),
        Err(error) => Err(error@),
    }
}

/// Makes the error for the line `line`, whose first token is `mnemonic`.
pub fn reject(line: u64, mnemonic: &str, kind: ErrorKind) -> (error: AsmError)
    ensures
        error@ == (AsmErrorView { line, mnemonic: mnemonic@, kind }),
{
    AsmError { line, mnemonic: mnemonic.to_owned(), kind }
}

} // verus!
