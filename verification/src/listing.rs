//! Assembling a whole listing, line by line.
//!
//! The output is a stream of binary digit characters, sixteen for each
//! instruction and nothing between them. It is not the packed two bytes of a
//! loadable program: for those, take [`crate::field::Instruction::word`] of
//! each line.

use crate::encoder::parse_line;
use crate::error::{AsmError, AsmErrorView};
use crate::field::{bit_string, Field};
use crate::format::assembled;
use crate::token::texts;
use vstd::prelude::*;

verus! {

/// The number of a line, the first line of a listing being line 1.
pub open spec fn line_number(index: int) -> u64 {
    (index + 1) as u64
}

/// The line at `index` is accepted.
pub open spec fn accepted(lines: Seq<Seq<char>>, index: int) -> bool {
    assembled(lines[index], line_number(index)) is Ok
}

/// The result of a line that is rejected with `error`.
pub open spec fn failed(error: AsmErrorView) -> Result<Seq<Field>, AsmErrorView> {
    Err(error)
}

/// The digits written for the first `count` lines of a listing.
pub open spec fn output_of(lines: Seq<Seq<char>>, count: nat) -> Seq<char>
    decreases count,
{
    if count == 0 {
        Seq::empty()
    } else {
        output_of(lines, (count - 1) as nat) + bit_string(
            assembled(lines[count - 1], line_number(count - 1))->Ok_0,
        )
    }
}

/// Assembles the lines of a listing in order and appends the digits of each
/// instruction to `out`. It stops at the first line that is rejected and
/// returns that line's error: `out` then holds the instructions of the lines
/// before it, each of them whole, and nothing of the rejected line.
pub fn assemble(lines: &Vec<String>, out: &mut String) -> (r: Result<(), AsmError>)
    ensures
        match r {
            Ok(()) => {
                &&& forall|i: int| 0 <= i < lines@.len() ==> accepted(texts(lines@), i)
                &&& final(out)@ == old(out)@ + output_of(texts(lines@), lines@.len())
            },
            Err(error) => {
                let k = error.line - 1;
                &&& 0 <= k < lines@.len()
                &&& forall|i: int| 0 <= i < k ==> accepted(texts(lines@), i)
                &&& assembled(texts(lines@)[k], line_number(k)) == failed(error@)
                &&& final(out)@ == old(out)@ + output_of(texts(lines@), k as nat)
            },
        },
{
    let ghost sources = texts(lines@);
    let mut i: usize = 0;
    proof {
        assert(out@ =~= old(out)@ + output_of(sources, 0));
    }
    while i < lines.len()
        invariant
            i <= lines@.len(),
            sources == texts(lines@),
            forall|j: int| 0 <= j < i ==> accepted(sources, j),
            out@ == old(out)@ + output_of(sources, i as nat),
        decreases lines@.len() - i,
    {
        let ln: u64 = (i + 1) as u64;
        match parse_line(lines[i].as_str(), ln) {
            Err(error) => {
                proof {
                    assert(assembled(sources[i as int], line_number(i as int)) == failed(error@));
                }
                return Err(error);
            },
            Ok(instruction) => {
                let bits = instruction.bits();
                out.append(bits.as_str());
                proof {
                    assert(out@ =~= old(out)@ + output_of(sources, (i + 1) as nat));
                }
            },
        }
        i = i + 1;
    }
    Ok(())
}

} // verus!
