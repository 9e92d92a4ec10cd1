//! What holds of every line: the laws of the tokenizer and of the encoder.
//!
//! The laws speak of lines in the usual notation, [`source_line`], with
//! numbers written as any sequence of decimal digits.

use crate::error::{AsmErrorView, ErrorKind};
use crate::field::{
    binary, bit_string, lemma_bit_string_len, packed, total_width, well_formed, Field,
};
use crate::format::{assembled, byte, lemma_encoding_well_formed, nibble};
use crate::listing::{accepted, line_number, output_of};
use crate::mnemonic::{lemma_named, lemma_names_not_empty, Mnemonic};
use crate::number::{decimal, is_number, lemma_decimal_is_read_back, number_value};
use crate::operand::{is_register_shaped, register_field, REGISTER_MARKER};
use crate::token::{is_word, lemma_tokens_push, tokens_of, without_commas};
use vstd::arithmetic::power2::{lemma2_to64, lemma_pow2_unfold, pow2};
use vstd::prelude::*;

verus! {

/// The token for the register whose index is written `index`.
pub open spec fn register(index: Seq<char>) -> Seq<char> {
    seq![REGISTER_MARKER] + index
}

/// A source line in the usual notation: the mnemonic, a space, and the
/// operands with a comma and a space between them.
pub open spec fn source_line(mnemonic: Seq<char>, operands: Seq<Seq<char>>) -> Seq<char>
    decreases operands.len(),
{
    if operands.len() == 0 {
        mnemonic
    } else if operands.len() == 1 {
        mnemonic + seq![' '] + operands[0]
    } else {
        source_line(mnemonic, operands.drop_last()) + seq![',', ' '] + operands.last()
    }
}

/// Tokens put together again, with one space between two of them.
pub open spec fn joined(tokens: Seq<Seq<char>>) -> Seq<char>
    decreases tokens.len(),
{
    if tokens.len() == 0 {
        Seq::empty()
    } else if tokens.len() == 1 {
        tokens[0]
    } else {
        joined(tokens.drop_last()) + seq![' '] + tokens.last()
    }
}

/// The error of line `ln` with the mnemonic `mnemonic`.
pub open spec fn rejected(ln: u64, mnemonic: Seq<char>, kind: ErrorKind) -> Result<
    Seq<Field>,
    AsmErrorView,
> {
    Err(AsmErrorView { line: ln, mnemonic, kind })
}

/// The fields `fields` as the result of a line.
pub open spec fn accepted_as(fields: Seq<Field>) -> Result<Seq<Field>, AsmErrorView> {
    Ok(fields)
}

/// A field of `bits` bits that holds the number written `text`.
pub open spec fn number_field(bits: u8, text: Seq<char>) -> Field {
    Field { width: bits, value: number_value(text) as u16 }
}

/// The tokens of a line hold no space and no comma, and with one space
/// between two of them they are the line without its commas.
pub proof fn law_tokens_rejoin(line: Seq<char>)
    ensures
        tokens_of(line).len() >= 1,
        forall|i: int| 0 <= i < tokens_of(line).len() ==> is_word(#[trigger] tokens_of(line)[i]),
        joined(tokens_of(line)) == without_commas(line),
    decreases line.len(),
{
    if line.len() == 0 {
        reveal(Seq::filter);
        assert(tokens_of(line) =~= seq![Seq::<char>::empty()]);
        assert(joined(tokens_of(line)) =~= without_commas(line));
    } else {
        let front = line.drop_last();
        let c = line.last();
        law_tokens_rejoin(front);
        lemma_tokens_push(front, c);
        assert(front.push(c) =~= line);
        front.lemma_filter_push(c, |c: char| c != ',');
        let before = tokens_of(front);
        let after = tokens_of(line);
        if c == ',' {
        } else if c == ' ' {
            assert(after.drop_last() =~= before);
            assert(joined(after) =~= without_commas(front).push(c));
        } else {
            assert(after.drop_last() =~= before.drop_last());
            if before.len() > 1 {
                assert(joined(after) =~= joined(before).push(c));
            }
            assert forall|i: int| 0 <= i < after.len() implies is_word(#[trigger] after[i]) by {
                if i < after.len() - 1 {
                    assert(after[i] == before[i]);
                }
            }
        }
    }
}

/// Text without separators, put at the end of a line, lengthens the line's
/// last token.
pub proof fn lemma_tokens_add_word(line: Seq<char>, word: Seq<char>)
    requires
        is_word(word),
    ensures
        tokens_of(line).len() >= 1,
        tokens_of(line + word) == tokens_of(line).drop_last().push(tokens_of(line).last() + word),
    decreases word.len(),
{
    lemma_tokens_push(line, ' ');
    let tokens = tokens_of(line);
    if word.len() == 0 {
        assert(line + word =~= line);
        assert(tokens.last() + word =~= tokens.last());
        assert(tokens.drop_last().push(tokens.last()) =~= tokens);
    } else {
        let front = word.drop_last();
        lemma_tokens_add_word(line, front);
        lemma_tokens_push(line + front, word.last());
        assert((line + front).push(word.last()) =~= line + word);
        assert((tokens.last() + front).push(word.last()) =~= tokens.last() + word);
        assert(tokens.drop_last().push(tokens.last() + front).drop_last() =~= tokens.drop_last());
    }
}

/// A word after a space, or after a comma and a space, is one more token.
pub proof fn lemma_tokens_next_word(line: Seq<char>, word: Seq<char>)
    requires
        is_word(word),
    ensures
        tokens_of(line + seq![' '] + word) == tokens_of(line).push(word),
        tokens_of(line + seq![',', ' '] + word) == tokens_of(line).push(word),
{
    lemma_tokens_push(line, ',');
    lemma_tokens_push(line, ' ');
    lemma_tokens_push(line.push(','), ' ');
    assert(line + seq![' '] =~= line.push(' '));
    assert(line + seq![',', ' '] =~= line.push(',').push(' '));
    lemma_tokens_add_word(line + seq![' '], word);
    lemma_tokens_add_word(line + seq![',', ' '], word);
    assert(Seq::<char>::empty() + word =~= word);
    assert(tokens_of(line).push(Seq::empty()).drop_last() =~= tokens_of(line));
}

/// A line in the usual notation splits into its mnemonic and its operands.
pub proof fn law_tokens_of_source_line(mnemonic: Seq<char>, operands: Seq<Seq<char>>)
    requires
        is_word(mnemonic),
        forall|i: int| 0 <= i < operands.len() ==> is_word(#[trigger] operands[i]),
    ensures
        tokens_of(source_line(mnemonic, operands)) == seq![mnemonic] + operands,
    decreases operands.len(),
{
    if operands.len() == 0 {
        lemma_tokens_add_word(Seq::empty(), mnemonic);
        reveal(Seq::filter);
        assert(tokens_of(Seq::<char>::empty()) =~= seq![Seq::<char>::empty()]);
        assert(Seq::<char>::empty() + mnemonic =~= mnemonic);
        assert(tokens_of(mnemonic) =~= seq![mnemonic] + operands);
    } else if operands.len() == 1 {
        law_tokens_of_source_line(mnemonic, operands.drop_last());
        lemma_tokens_next_word(mnemonic, operands[0]);
        assert(source_line(mnemonic, operands.drop_last()) == mnemonic);
        assert(tokens_of(mnemonic).push(operands[0]) =~= seq![mnemonic] + operands);
    } else {
        let front = operands.drop_last();
        law_tokens_of_source_line(mnemonic, front);
        lemma_tokens_next_word(source_line(mnemonic, front), operands.last());
        assert((seq![mnemonic] + front).push(operands.last()) =~= seq![mnemonic] + operands);
    }
}

/// Every number has a decimal notation, which is read back as that number,
/// holds no separator and is not taken for a register.
pub proof fn law_decimal_is_read_back(n: nat)
    ensures
        is_number(decimal(n)),
        number_value(decimal(n)) == n,
        is_word(decimal(n)),
        !is_register_shaped(decimal(n)),
{
    lemma_decimal_is_read_back(n);
}

/// `CLS` and `RET` alone on a line encode to one constant word each,
/// `0x00E0` and `0x00EE`. With anything after the mnemonic the line is
/// rejected for having too many operands, whatever follows.
pub proof fn law_constant_words(line: Seq<char>, ln: u64)
    requires
        tokens_of(line)[0] == "CLS"@ || tokens_of(line)[0] == "RET"@,
    ensures
        tokens_of(line).len() == 1 && tokens_of(line)[0] == "CLS"@ ==> assembled(line, ln)
            == accepted_as(seq![Field { width: 16, value: 0x00E0 }]),
        tokens_of(line).len() == 1 && tokens_of(line)[0] == "RET"@ ==> assembled(line, ln)
            == accepted_as(seq![Field { width: 16, value: 0x00EE }]),
        tokens_of(line).len() > 1 ==> assembled(line, ln) == rejected(
            ln,
            tokens_of(line)[0],
            ErrorKind::TooManyOperands,
        ),
{
    lemma_tokens_push(line, ' ');
    lemma_named(Mnemonic::Cls);
    lemma_named(Mnemonic::Ret);
    reveal_strlit("CLS");
    reveal_strlit("RET");
}

/// A register operand with an index from 0 to 15 gives a field of four bits
/// that holds the index. A greater index is out of range, and a token that
/// does not start with the register marker is not a register.
pub proof fn law_register_operand(index: Seq<char>, token: Seq<char>, operand: usize)
    requires
        is_number(index),
    ensures
        number_value(index) <= 15 ==> register_field(register(index), operand) == Ok::<
            Field,
            ErrorKind,
        >(number_field(4, index)),
        number_value(index) >= 16 ==> register_field(register(index), operand) == Err::<
            Field,
            ErrorKind,
        >(ErrorKind::OutOfRange { operand, bits: 4 }),
        !is_register_shaped(token) ==> register_field(token, operand) == Err::<Field, ErrorKind>(
            ErrorKind::NotRegister { operand },
        ),
        is_word(register(index)),
        is_register_shaped(register(index)),
{
    lemma2_to64();
    assert(register(index).skip(1) =~= index);
}

/// `JP a` with an address from 0 to 4095 encodes to the nibble 1 and the
/// address in twelve bits. A greater address is out of range.
pub proof fn law_jump(address: Seq<char>, ln: u64)
    requires
        is_number(address),
    ensures
        number_value(address) <= 4095 ==> assembled(source_line("JP"@, seq![address]), ln)
            == accepted_as(seq![nibble(0x1), number_field(12, address)]),
        number_value(address) >= 4096 ==> assembled(source_line("JP"@, seq![address]), ln)
            == rejected(ln, "JP"@, ErrorKind::OutOfRange { operand: 1, bits: 12 }),
{
    reveal_strlit("JP");
    law_tokens_of_source_line("JP"@, seq![address]);
    lemma_named(Mnemonic::Jp);
    lemma2_to64();
    let tokens = seq!["JP"@] + seq![address];
    assert(tokens[0] == "JP"@);
    assert(tokens[1] == address);
}

/// `SE Vx, b` with a byte from 0 to 255 encodes to the nibble 3, the
/// register and the byte. A greater byte is out of range.
pub proof fn law_skip_if_equal_byte(x: Seq<char>, b: Seq<char>, ln: u64)
    requires
        is_number(x),
        number_value(x) <= 15,
        is_number(b),
    ensures
        number_value(b) <= 255 ==> assembled(source_line("SE"@, seq![register(x), b]), ln)
            == accepted_as(seq![nibble(0x3), number_field(4, x), number_field(8, b)]),
        number_value(b) >= 256 ==> assembled(source_line("SE"@, seq![register(x), b]), ln)
            == rejected(ln, "SE"@, ErrorKind::OutOfRange { operand: 2, bits: 8 }),
{
    reveal_strlit("SE");
    law_register_operand(x, Seq::empty(), 1);
    law_tokens_of_source_line("SE"@, seq![register(x), b]);
    lemma_named(Mnemonic::Se);
    lemma2_to64();
    let tokens = seq!["SE"@] + seq![register(x), b];
    assert(tokens[0] == "SE"@);
    assert(tokens[1] == register(x));
    assert(tokens[2] == b);
}

/// The shape of the second operand selects the encoding of `ADD`: with a
/// register, `ADD Vx, Vy` is the nibble 8, both registers and the nibble 4;
/// with a number, `ADD Vx, b` is the nibble 7, the register and the byte.
pub proof fn law_add_by_shape(x: Seq<char>, y: Seq<char>, b: Seq<char>, ln: u64)
    requires
        is_number(x),
        number_value(x) <= 15,
        is_number(y),
        number_value(y) <= 15,
        is_number(b),
        number_value(b) <= 255,
    ensures
        assembled(source_line("ADD"@, seq![register(x), register(y)]), ln) == accepted_as(
            seq![nibble(0x8), number_field(4, x), number_field(4, y), nibble(0x4)],
        ),
        assembled(source_line("ADD"@, seq![register(x), b]), ln) == accepted_as(
            seq![nibble(0x7), number_field(4, x), number_field(8, b)],
        ),
        assembled(source_line("ADD"@, seq![register(x), register(y)]), ln) != assembled(
            source_line("ADD"@, seq![register(x), b]),
            ln,
        ),
{
    reveal_strlit("ADD");
    reveal_strlit("I");
    law_register_operand(x, Seq::empty(), 1);
    law_register_operand(y, Seq::empty(), 2);
    lemma_named(Mnemonic::Add);
    lemma2_to64();
    law_tokens_of_source_line("ADD"@, seq![register(x), register(y)]);
    let pair = seq!["ADD"@] + seq![register(x), register(y)];
    assert(pair[0] == "ADD"@ && pair[1] == register(x) && pair[2] == register(y));
    law_tokens_of_source_line("ADD"@, seq![register(x), b]);
    let immediate = seq!["ADD"@] + seq![register(x), b];
    assert(immediate[0] == "ADD"@ && immediate[1] == register(x) && immediate[2] == b);
    let long = seq![nibble(0x8), number_field(4, x), number_field(4, y), nibble(0x4)];
    let short = seq![nibble(0x7), number_field(4, x), number_field(8, b)];
    assert(long.len() != short.len());
}

/// Under the first operand `I`, the shape of the second selects the encoding
/// of `LD`: `LD I, Vx` is the nibble F, the register and the byte 0x55;
/// `LD I, a` is the nibble A and the address.
pub proof fn law_load_index_by_shape(x: Seq<char>, a: Seq<char>, ln: u64)
    requires
        is_number(x),
        number_value(x) <= 15,
        is_number(a),
        number_value(a) <= 4095,
    ensures
        assembled(source_line("LD"@, seq!["I"@, register(x)]), ln) == accepted_as(
            seq![nibble(0xF), number_field(4, x), byte(0x55)],
        ),
        assembled(source_line("LD"@, seq!["I"@, a]), ln) == accepted_as(
            seq![nibble(0xA), number_field(12, a)],
        ),
{
    reveal_strlit("LD");
    reveal_strlit("I");
    law_register_operand(x, Seq::empty(), 2);
    lemma_named(Mnemonic::Ld);
    lemma2_to64();
    law_tokens_of_source_line("LD"@, seq!["I"@, register(x)]);
    let from_register = seq!["LD"@] + seq!["I"@, register(x)];
    assert(from_register[0] == "LD"@ && from_register[1] == "I"@ && from_register[2] == register(
        x,
    ));
    law_tokens_of_source_line("LD"@, seq!["I"@, a]);
    let from_address = seq!["LD"@] + seq!["I"@, a];
    assert(from_address[0] == "LD"@ && from_address[1] == "I"@ && from_address[2] == a);
}

/// A line whose first token is no operation's name is rejected as such, with
/// the line's number and that token, whatever else the line holds.
pub proof fn law_unknown_mnemonic(line: Seq<char>, ln: u64)
    requires
        tokens_of(line)[0].len() > 0,
        forall|m: Mnemonic| m.name() != tokens_of(line)[0],
    ensures
        assembled(line, ln) == rejected(ln, tokens_of(line)[0], ErrorKind::UnknownMnemonic),
{
    lemma_tokens_push(line, ' ');
}

/// A line with fewer operands than its mnemonic takes is rejected for that,
/// whatever its operands are: none of them is looked at.
pub proof fn law_too_few_operands(line: Seq<char>, m: Mnemonic, ln: u64)
    requires
        tokens_of(line)[0] == m.name(),
        tokens_of(line).len() - 1 < m.min_operands(),
    ensures
        assembled(line, ln) == rejected(ln, m.name(), ErrorKind::TooFewOperands),
{
    lemma_tokens_push(line, ' ');
    lemma_named(m);
}

/// A line with more operands than its mnemonic takes is rejected for that,
/// whatever its operands are.
pub proof fn law_too_many_operands(line: Seq<char>, m: Mnemonic, ln: u64)
    requires
        tokens_of(line)[0] == m.name(),
        tokens_of(line).len() - 1 > m.max_operands(),
    ensures
        assembled(line, ln) == rejected(ln, m.name(), ErrorKind::TooManyOperands),
{
    lemma_tokens_push(line, ' ');
    lemma_named(m);
    lemma_names_not_empty();
}

/// Whether a line is accepted, and to what it encodes, does not depend on
/// its number: the number only labels the error.
pub proof fn law_line_number_labels_only(line: Seq<char>, ln: u64, other: u64)
    ensures
        assembled(line, ln) is Ok <==> assembled(line, other) is Ok,
        assembled(line, ln) is Ok ==> assembled(line, ln) == assembled(line, other),
        assembled(line, ln) matches Err(error) ==> error.line == ln,
{
}

/// Every line that is accepted encodes to valid fields that fill exactly 16
/// bits, so that its digits are sixteen.
pub proof fn law_sixteen_bits(line: Seq<char>, ln: u64)
    ensures
        assembled(line, ln) matches Ok(fields) ==> well_formed(fields) && bit_string(fields).len()
            == 16,
{
    lemma_encoding_well_formed(tokens_of(line));
    if let Ok(fields) = assembled(line, ln) {
        lemma_bit_string_len(fields);
    }
}

/// The output for the accepted lines of a listing holds sixteen digits for
/// each line: whole instructions only.
pub proof fn law_output_is_whole_instructions(lines: Seq<Seq<char>>, count: nat)
    requires
        count <= lines.len(),
        forall|i: int| 0 <= i < count ==> accepted(lines, i),
    ensures
        output_of(lines, count).len() == 16 * count,
    decreases count,
{
    if count > 0 {
        law_output_is_whole_instructions(lines, (count - 1) as nat);
        assert(accepted(lines, count - 1));
        law_sixteen_bits(lines[count - 1], line_number(count - 1));
    }
}

/// A number followed by a field is, in binary, the digits of the number
/// followed by the digits of the field.
pub proof fn lemma_binary_append(high: nat, digits: nat, low: nat, width: nat)
    requires
        low < pow2(width),
    ensures
        binary(high * pow2(width) + low, digits + width) == binary(high, digits) + binary(
            low,
            width,
        ),
    decreases width,
{
    if width == 0 {
        lemma2_to64();
        assert(binary(low, width) =~= Seq::<char>::empty());
        assert(binary(high, digits) + binary(low, width) =~= binary(high, digits));
        assert(high * pow2(0) + low == high) by (nonlinear_arith)
            requires
                pow2(0) == 1,
                low == 0,
        ;
    } else {
        let rest = (width - 1) as nat;
        lemma_pow2_unfold(width);
        let half = pow2(rest);
        let scaled = high * half;
        assert(high * pow2(width) == 2 * scaled) by (nonlinear_arith)
            requires
                pow2(width) == 2 * half,
                scaled == high * half,
        ;
        let whole = high * pow2(width) + low;
        assert(whole / 2 == scaled + low / 2);
        assert(whole % 2 == low % 2);
        lemma_binary_append(high, digits, low / 2, rest);
        assert((digits + width - 1) as nat == digits + rest);
        assert(binary(whole, digits + width) =~= binary(high, digits) + binary(low, width));
    }
}

/// The digits written for an instruction are the binary notation of its
/// word: the two forms of the output say the same.
pub proof fn law_bits_are_the_word(fields: Seq<Field>)
    requires
        forall|i: int| 0 <= i < fields.len() ==> (#[trigger] fields[i]).valid(),
    ensures
        bit_string(fields) == binary(packed(fields), total_width(fields)),
    decreases fields.len(),
{
    if fields.len() == 0 {
        assert(binary(0, 0) =~= Seq::<char>::empty());
    } else {
        let front = fields.drop_last();
        let last = fields.last();
        law_bits_are_the_word(front);
        lemma_binary_append(
            packed(front),
            total_width(front),
            last.value as nat,
            last.width as nat,
        );
    }
}

} // verus!
