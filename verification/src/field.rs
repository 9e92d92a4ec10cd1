//! Bit fields and the instruction words they compose.
//!
//! An instruction is kept as the sequence of its fields, the highest-order
//! field first. It can be had as sixteen binary digits, which is how a
//! listing is written out, or as one 16-bit word.

use vstd::arithmetic::power2::{lemma2_to64, lemma_pow2_adds, pow2};
use vstd::prelude::*;

verus! {

/// One group of bits of an instruction word: `value`, written in `width` bits.
#[derive(Clone, Copy, Debug, PartialEq, Eq, Structural)]
pub struct Field {
    pub width: u8,
    pub value: u16,
}

impl Field {
    /// The width is one the instruction set uses and the value fits in it.
    pub open spec fn valid(self) -> bool {
        &&& (self.width == 4 || self.width == 8 || self.width == 12 || self.width == 16)
        &&& (self.value as nat) < pow2(self.width as nat)
    }

    /// The digits that this field contributes to the output.
    pub open spec fn digits(self) -> Seq<char> {
        binary(self.value as nat, self.width as nat)
    }
}

/// The last `width` binary digits of `value`, most significant first, padded
/// with zeros on the left.
pub open spec fn binary(value: nat, width: nat) -> Seq<char>
    decreases width,
{
    if width == 0 {
        Seq::empty()
    } else {
        binary(value / 2, (width - 1) as nat).push(
            if value % 2 == 1 {
                '1'
            } else {
                '0'
            },
        )
    }
}

/// The number of bits that a sequence of fields takes.
pub open spec fn total_width(fields: Seq<Field>) -> nat
    decreases fields.len(),
{
    if fields.len() == 0 {
        0
    } else {
        total_width(fields.drop_last()) + fields.last().width as nat
    }
}

/// The value of the fields read as one number, the first field in the
/// highest-order position.
pub open spec fn packed(fields: Seq<Field>) -> nat
    decreases fields.len(),
{
    if fields.len() == 0 {
        0
    } else {
        packed(fields.drop_last()) * pow2(fields.last().width as nat) + fields.last().value as nat
    }
}

/// The digits of the fields, one field after the other.
pub open spec fn bit_string(fields: Seq<Field>) -> Seq<char>
    decreases fields.len(),
{
    if fields.len() == 0 {
        Seq::empty()
    } else {
        bit_string(fields.drop_last()) + fields.last().digits()
    }
}

/// Every field is valid and together they fill one instruction word.
pub open spec fn well_formed(fields: Seq<Field>) -> bool {
    &&& forall|i: int| 0 <= i < fields.len() ==> (#[trigger] fields[i]).valid()
    &&& total_width(fields) == 16
}

/// One encoded instruction: fields that are valid and fill 16 bits.
#[derive(Debug, PartialEq, Eq)]
pub struct Instruction {
    fields: Vec<Field>,
}

impl View for Instruction {
    type V = Seq<Field>;

    closed spec fn view(&self) -> Seq<Field> {
        self.fields@
    }
}

impl Clone for Instruction {
    fn clone(&self) -> (copy: Self)
        ensures
            copy@ == self@,
    {
        proof {
            use_type_invariant(self);
        }
        Instruction { fields: vstd::slice::slice_to_vec(self.fields.as_slice()) }
    }
}

impl Instruction {
    #[verifier::type_invariant]
    spec fn inv(self) -> bool {
        well_formed(self.fields@)
    }

    /// The instruction of fields that are known to be valid and to fill 16
    /// bits.
    pub(crate) fn of(fields: Vec<Field>) -> (instruction: Instruction)
        requires
            well_formed(fields@),
        ensures
            instruction@ == fields@,
    {
        Instruction { fields }
    }

    /// Makes an instruction of `fields` if they are valid and fill 16 bits.
    pub fn new(fields: Vec<Field>) -> (r: Option<Instruction>)
        ensures
            r is Some <==> well_formed(fields@),
            r matches Some(instruction) ==> instruction@ == fields@,
    {
        let mut bits: u64 = 0;
        let mut i: usize = 0;
        while i < fields.len()
            invariant
                i <= fields.len(),
                bits == total_width(fields@.take(i as int)),
                bits <= 16,
                forall|j: int| 0 <= j < i ==> (#[trigger] fields@[j]).valid(),
            decreases fields.len() - i,
        {
            let field = fields[i];
            proof {
                lemma2_to64();
                lemma_fields_push(fields@.take(i as int), field);
                assert(fields@.take(i as int).push(field) =~= fields@.take(i + 1));
                lemma_total_width_take(fields@, i + 1);
            }
            let fits = (field.width == 4 && field.value < 16) || (field.width == 8 && field.value
                < 256) || (field.width == 12 && field.value < 4096) || field.width == 16;
            if !fits || bits + field.width as u64 > 16 {
                return None;
            }
            bits = bits + field.width as u64;
            i = i + 1;
        }
        assert(fields@.take(i as int) =~= fields@);
        if bits == 16 {
            Some(Instruction { fields })
        } else {
            None
        }
    }

    /// The fields, the highest-order field first.
    pub fn fields(&self) -> (fields: Vec<Field>)
        ensures
            fields@ == self@,
            well_formed(self@),
    {
        proof {
            use_type_invariant(self);
        }
        vstd::slice::slice_to_vec(self.fields.as_slice())
    }

    /// The instruction as sixteen binary digits, the characters `0` and `1`.
    pub fn bits(&self) -> (digits: String)
        ensures
            digits@ == bit_string(self@),
            digits@.len() == 16,
    {
        proof {
            use_type_invariant(self);
        }
        let mut digits = String::new();
        let mut i: usize = 0;
        while i < self.fields.len()
            invariant
                i <= self.fields.len(),
                digits@ == bit_string(self.fields@.take(i as int)),
            decreases self.fields.len() - i,
        {
            let field = self.fields[i];
            append_binary(&mut digits, field.value, field.width);
            proof {
                lemma_fields_push(self.fields@.take(i as int), field);
                assert(self.fields@.take(i as int).push(field) =~= self.fields@.take(i + 1));
            }
            i = i + 1;
        }
        proof {
            assert(self.fields@.take(i as int) =~= self.fields@);
            lemma_bit_string_len(self.fields@);
        }
        digits
    }

    /// The instruction as one 16-bit word.
    pub fn word(&self) -> (word: u16)
        ensures
            word == packed(self@),
    {
        proof {
            use_type_invariant(self);
            lemma2_to64();
        }
        let mut acc: u32 = 0;
        let mut i: usize = 0;
        while i < self.fields.len()
            invariant
                i <= self.fields.len(),
                well_formed(self.fields@),
                acc == packed(self.fields@.take(i as int)),
                acc < pow2(total_width(self.fields@.take(i as int))),
                total_width(self.fields@.take(i as int)) <= 16,
            decreases self.fields.len() - i,
        {
            let field = self.fields[i];
            let ghost done = self.fields@.take(i as int);
            proof {
                lemma_fields_push(done, field);
                assert(done.push(field) =~= self.fields@.take(i + 1));
                lemma_total_width_take(self.fields@, i + 1);
                lemma_packed_bound(done, field);
                lemma2_to64();
            }
            let scale: u32 = if field.width == 4 {
                16
            } else if field.width == 8 {
                256
            } else if field.width == 12 {
                4096
            } else {
                65536
            };
            assert(acc * scale + field.value < 0x1_0000) by (nonlinear_arith)
                requires
                    acc * scale + field.value < pow2(total_width(done) + field.width as nat),
                    pow2(total_width(done) + field.width as nat) <= 0x1_0000,
            ;
            acc = acc * scale + field.value as u32;
            i = i + 1;
        }
        proof {
            assert(self.fields@.take(i as int) =~= self.fields@);
        }
        acc as u16
    }
}

/// Appends the last `width` binary digits of `value` to `out`.
fn append_binary(out: &mut String, value: u16, width: u8)
    ensures
        final(out)@ == old(out)@ + binary(value as nat, width as nat),
    decreases width,
{
    if width > 0 {
        append_binary(out, value / 2, width - 1);
        proof {
            reveal_strlit("0");
            reveal_strlit("1");
        }
        if value % 2 == 1 {
            out.append("1");
        } else {
            out.append("0");
        }
    }
    assert(out@ =~= old(out)@ + binary(value as nat, width as nat));
}

/// Adding a field at the end adds its width, its digits and its value.
pub proof fn lemma_fields_push(fields: Seq<Field>, field: Field)
    ensures
        total_width(fields.push(field)) == total_width(fields) + field.width as nat,
        bit_string(fields.push(field)) == bit_string(fields) + field.digits(),
        packed(fields.push(field)) == packed(fields) * pow2(field.width as nat)
            + field.value as nat,
{
    assert(fields.push(field).drop_last() =~= fields);
}

/// The width of up to four fields is the sum of their widths.
pub proof fn lemma_total_width_of(fields: Seq<Field>)
    requires
        fields.len() <= 4,
    ensures
        total_width(fields) == (if fields.len() > 0 {
            fields[0].width as nat
        } else {
            0
        }) + (if fields.len() > 1 {
            fields[1].width as nat
        } else {
            0
        }) + (if fields.len() > 2 {
            fields[2].width as nat
        } else {
            0
        }) + (if fields.len() > 3 {
            fields[3].width as nat
        } else {
            0
        }),
    decreases fields.len(),
{
    if fields.len() > 0 {
        lemma_total_width_of(fields.drop_last());
    }
}

/// The width of a prefix of the fields is at most the width of all.
pub proof fn lemma_total_width_take(fields: Seq<Field>, n: int)
    requires
        0 <= n <= fields.len(),
    ensures
        total_width(fields.take(n)) <= total_width(fields),
    decreases fields.len(),
{
    if n < fields.len() {
        lemma_total_width_take(fields.drop_last(), n);
        assert(fields.drop_last().take(n) =~= fields.take(n));
    } else {
        assert(fields.take(n) =~= fields);
    }
}

/// A number has `width` digits in `width` bits.
pub proof fn lemma_binary_len(value: nat, width: nat)
    ensures
        binary(value, width).len() == width,
    decreases width,
{
    if width > 0 {
        lemma_binary_len(value / 2, (width - 1) as nat);
    }
}

/// The digits of a sequence of fields are as many as its bits.
pub proof fn lemma_bit_string_len(fields: Seq<Field>)
    ensures
        bit_string(fields).len() == total_width(fields),
    decreases fields.len(),
{
    if fields.len() > 0 {
        lemma_bit_string_len(fields.drop_last());
        lemma_binary_len(fields.last().value as nat, fields.last().width as nat);
    }
}

/// Valid fields pack into a number of as many bits as they are wide.
pub proof fn lemma_packed_bound(fields: Seq<Field>, field: Field)
    requires
        packed(fields) < pow2(total_width(fields)),
        field.valid(),
    ensures
        packed(fields) * pow2(field.width as nat) + (field.value as nat) < pow2(
            total_width(fields) + field.width as nat,
        ),
{
    let high = total_width(fields);
    let low = field.width as nat;
    lemma_pow2_adds(high, low);
    assert(packed(fields) * pow2(low) + (field.value as nat) < pow2(high) * pow2(low))
        by (nonlinear_arith)
        requires
            packed(fields) < pow2(high),
            (field.value as nat) < pow2(low),
    ;
}

} // verus!
