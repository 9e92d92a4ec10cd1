//! The names of the operations.

use crate::token::{chars_of, spells};
use vstd::prelude::*;

verus! {

/// The operations of the instruction set.
#[derive(Clone, Copy, Debug, PartialEq, Eq, Structural)]
pub enum Mnemonic {
    Sys,
    Cls,
    Ret,
    Jp,
    Call,
    Se,
    Sne,
    Add,
    Or,
    And,
    Xor,
    Sub,
    Shr,
    Subn,
    Shl,
    Rnd,
    Drw,
    Skp,
    Sknp,
    Ld,
}

impl Mnemonic {
    /// The operation's name as it stands in a source line.
    pub open spec fn name(self) -> Seq<char> {
        match self {
            Mnemonic::Sys => "SYS"@,
            Mnemonic::Cls => "CLS"@,
            Mnemonic::Ret => "RET"@,
            Mnemonic::Jp => "JP"@,
            Mnemonic::Call => "CALL"@,
            Mnemonic::Se => "SE"@,
            Mnemonic::Sne => "SNE"@,
            Mnemonic::Add => "ADD"@,
            Mnemonic::Or => "OR"@,
            Mnemonic::And => "AND"@,
            Mnemonic::Xor => "XOR"@,
            Mnemonic::Sub => "SUB"@,
            Mnemonic::Shr => "SHR"@,
            Mnemonic::Subn => "SUBN"@,
            Mnemonic::Shl => "SHL"@,
            Mnemonic::Rnd => "RND"@,
            Mnemonic::Drw => "DRW"@,
            Mnemonic::Skp => "SKP"@,
            Mnemonic::Sknp => "SKNP"@,
            Mnemonic::Ld => "LD"@,
        }
    }

    /// The operation that a token names, if it names one. Names are matched
    /// letter for letter, upper case only.
    pub open spec fn named(token: Seq<char>) -> Option<Mnemonic> {
        if exists|m: Mnemonic| m.name() == token {
            Some(choose|m: Mnemonic| m.name() == token)
        } else {
            None
        }
    }

    /// Finds the operation that a token names.
    pub fn recognize(name: &str) -> (r: Option<Mnemonic>)
        ensures
            r == Mnemonic::named(name@),
            r matches Some(m) ==> m.name() == name@,
            r is None ==> forall|m: Mnemonic| m.name() != name@,
    {
        let letters = chars_of(name);
        let token = letters.as_slice();
        let found = if spells(token, "SYS") {
            Some(Mnemonic::Sys)
        } else if spells(token, "CLS") {
            Some(Mnemonic::Cls)
        } else if spells(token, "RET") {
            Some(Mnemonic::Ret)
        } else if spells(token, "JP") {
            Some(Mnemonic::Jp)
        } else if spells(token, "CALL") {
            Some(Mnemonic::Call)
        } else if spells(token, "SE") {
            Some(Mnemonic::Se)
        } else if spells(token, "SNE") {
            Some(Mnemonic::Sne)
        } else if spells(token, "ADD") {
            Some(Mnemonic::Add)
        } else if spells(token, "OR") {
            Some(Mnemonic::Or)
        } else if spells(token, "AND") {
            Some(Mnemonic::And)
        } else if spells(token, "XOR") {
            Some(Mnemonic::Xor)
        } else if spells(token, "SUB") {
            Some(Mnemonic::Sub)
        } else if spells(token, "SHR") {
            Some(Mnemonic::Shr)
        } else if spells(token, "SUBN") {
            Some(Mnemonic::Subn)
        } else if spells(token, "SHL") {
            Some(Mnemonic::Shl)
        } else if spells(token, "RND") {
            Some(Mnemonic::Rnd)
        } else if spells(token, "DRW") {
            Some(Mnemonic::Drw)
        } else if spells(token, "SKP") {
            Some(Mnemonic::Skp)
        } else if spells(token, "SKNP") {
            Some(Mnemonic::Sknp)
        } else if spells(token, "LD") {
            Some(Mnemonic::Ld)
        } else {
            None
        };
        proof {
            match found {
                Some(m) => {
                    assert(m.name() == token@);
                    lemma_names_differ();
                },
                None => {
                    assert forall|m: Mnemonic| m.name() != token@ by {}
                },
            }
        }
        found
    }

    /// The least number of operands that the operation takes.
    pub open spec fn min_operands(self) -> nat {
        match self {
            Mnemonic::Cls | Mnemonic::Ret => 0,
            Mnemonic::Sys | Mnemonic::Jp | Mnemonic::Call | Mnemonic::Shr | Mnemonic::Shl
            | Mnemonic::Skp | Mnemonic::Sknp => 1,
            Mnemonic::Drw => 3,
            _ => 2,
        }
    }

    /// The greatest number of operands that the operation takes.
    pub open spec fn max_operands(self) -> nat {
        match self {
            Mnemonic::Jp => 2,
            _ => self.min_operands(),
        }
    }

    /// The last nibble of the register-to-register operations that differ in
    /// nothing else.
    pub open spec fn alu_selector(self) -> Option<u8> {
        match self {
            Mnemonic::Or => Some(0x1u8),
            Mnemonic::And => Some(0x2u8),
            Mnemonic::Xor => Some(0x3u8),
            Mnemonic::Sub => Some(0x5u8),
            Mnemonic::Subn => Some(0x7u8),
            _ => None,
        }
    }

    /// The least and the greatest number of operands that the operation takes.
    pub fn operand_bounds(self) -> (r: (usize, usize))
        ensures
            r.0 == self.min_operands(),
            r.1 == self.max_operands(),
    {
        match self {
            Mnemonic::Cls | Mnemonic::Ret => (0, 0),
            Mnemonic::Jp => (1, 2),
            Mnemonic::Sys | Mnemonic::Call | Mnemonic::Shr | Mnemonic::Shl | Mnemonic::Skp
            | Mnemonic::Sknp => (1, 1),
            Mnemonic::Drw => (3, 3),
            _ => (2, 2),
        }
    }

    /// The last nibble of the register-to-register operations that differ in
    /// nothing else.
    pub fn selector(self) -> (r: Option<u8>)
        ensures
            r == self.alu_selector(),
    {
        match self {
            Mnemonic::Or => Some(0x1),
            Mnemonic::And => Some(0x2),
            Mnemonic::Xor => Some(0x3),
            Mnemonic::Sub => Some(0x5),
            Mnemonic::Subn => Some(0x7),
            _ => None,
        }
    }
}

/// No two operations have the same name.
pub proof fn lemma_names_differ()
    ensures
        forall|a: Mnemonic, b: Mnemonic| #[trigger] a.name() == #[trigger] b.name() ==> a == b,
{
    reveal_strlit("SYS");
    reveal_strlit("CLS");
    reveal_strlit("RET");
    reveal_strlit("JP");
    reveal_strlit("CALL");
    reveal_strlit("SE");
    reveal_strlit("SNE");
    reveal_strlit("ADD");
    reveal_strlit("OR");
    reveal_strlit("AND");
    reveal_strlit("XOR");
    reveal_strlit("SUB");
    reveal_strlit("SHR");
    reveal_strlit("SUBN");
    reveal_strlit("SHL");
    reveal_strlit("RND");
    reveal_strlit("DRW");
    reveal_strlit("SKP");
    reveal_strlit("SKNP");
    reveal_strlit("LD");
    assert forall|a: Mnemonic, b: Mnemonic| #[trigger] a.name() == #[trigger] b.name() implies a
        == b by {
        if a != b {
            assert(a.name().len() != b.name().len() || a.name()[0] != b.name()[0] || a.name()[1]
                != b.name()[1] || a.name()[2] != b.name()[2]);
        }
    }
}

/// Every operation's name has at least two letters.
pub proof fn lemma_names_not_empty()
    ensures
        forall|m: Mnemonic| (#[trigger] m.name()).len() >= 2,
{
    reveal_strlit("SYS");
    reveal_strlit("CLS");
    reveal_strlit("RET");
    reveal_strlit("JP");
    reveal_strlit("CALL");
    reveal_strlit("SE");
    reveal_strlit("SNE");
    reveal_strlit("ADD");
    reveal_strlit("OR");
    reveal_strlit("AND");
    reveal_strlit("XOR");
    reveal_strlit("SUB");
    reveal_strlit("SHR");
    reveal_strlit("SUBN");
    reveal_strlit("SHL");
    reveal_strlit("RND");
    reveal_strlit("DRW");
    reveal_strlit("SKP");
    reveal_strlit("SKNP");
    reveal_strlit("LD");
}

/// A token names the operation whose name it is, and no other.
pub proof fn lemma_named(m: Mnemonic)
    ensures
        Mnemonic::named(m.name()) == Some(m),
{
    lemma_names_differ();
}

} // verus!
