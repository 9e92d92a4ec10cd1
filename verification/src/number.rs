//! Numbers in decimal notation.

use vstd::prelude::*;

verus! {

/// The character is one of the ten decimal digits.
pub open spec fn is_digit(c: char) -> bool {
    '0' <= c && c <= '9'
}

/// The number from 0 to 9 that a decimal digit stands for.
pub open spec fn digit_value(c: char) -> nat {
    (c as nat - '0' as nat) as nat
}

/// The text is an unsigned decimal number: one digit or more and nothing else.
pub open spec fn is_number(text: Seq<char>) -> bool {
    &&& text.len() > 0
    &&& forall|i: int| 0 <= i < text.len() ==> is_digit(#[trigger] text[i])
}

/// The number that a sequence of digits stands for.
pub open spec fn number_value(text: Seq<char>) -> nat
    decreases text.len(),
{
    if text.len() == 0 {
        0
    } else {
        number_value(text.drop_last()) * 10 + digit_value(text.last())
    }
}

/// The character for a digit from 0 to 9.
pub open spec fn digit_char(d: nat) -> char {
    (d + '0' as nat) as char
}

/// The decimal notation of a number, without leading zeros.
pub open spec fn decimal(n: nat) -> Seq<char>
    decreases n,
{
    if n < 10 {
        seq![digit_char(n)]
    } else {
        decimal(n / 10).push(digit_char(n % 10))
    }
}

/// The decimal notation of a number is read back as that number.
pub proof fn lemma_decimal_is_read_back(n: nat)
    ensures
        is_number(decimal(n)),
        number_value(decimal(n)) == n,
    decreases n,
{
    if n < 10 {
        assert(decimal(n).drop_last() =~= Seq::<char>::empty());
        assert(number_value(decimal(n).drop_last()) == 0);
    } else {
        lemma_decimal_is_read_back(n / 10);
        assert(decimal(n).drop_last() =~= decimal(n / 10));
    }
}

/// What reading a number up to a limit gave.
pub(crate) enum Scan {
    NotNumber,
    Above,
    Value(u16),
}

/// Reads `text` as a decimal number no larger than `limit`. The text may
/// have any number of digits.
pub(crate) fn scan_number(text: &[char], limit: u16) -> (r: Scan)
    requires
        limit <= 4095,
    ensures
        r is NotNumber <==> !is_number(text@),
        r is Above <==> is_number(text@) && number_value(text@) > limit,
        r matches Scan::Value(v) ==> v == number_value(text@),
{
    if text.len() == 0 {
        return Scan::NotNumber;
    }
    let mut acc: u16 = 0;
    let mut above = false;
    let mut i: usize = 0;
    while i < text.len()
        invariant
            i <= text.len(),
            limit <= 4095,
            forall|j: int| 0 <= j < i ==> is_digit(#[trigger] text@[j]),
            above <==> number_value(text@.take(i as int)) > limit,
            !above ==> acc == number_value(text@.take(i as int)),
        decreases text.len() - i,
    {
        let c = text[i];
        if !('0' <= c && c <= '9') {
            return Scan::NotNumber;
        }
        proof {
            assert(text@.take(i + 1).drop_last() =~= text@.take(i as int));
        }
        if !above {
            acc = acc * 10 + (c as u16 - '0' as u16);
            if acc > limit {
                above = true;
            }
        }
        i = i + 1;
    }
    proof {
        assert(text@.take(i as int) =~= text@);
    }
    if above {
        Scan::Above
    } else {
        Scan::Value(acc)
    }
}

/// Appends the decimal notation of `n` to `out`.
pub fn append_decimal(out: &mut String, n: u64)
    ensures
        final(out)@ == old(out)@ + decimal(n as nat),
    decreases n,
{
    if n >= 10 {
        append_decimal(out, n / 10);
    }
    let digit: u64 = n % 10;
    proof {
        reveal_strlit("0");
        reveal_strlit("1");
        reveal_strlit("2");
        reveal_strlit("3");
        reveal_strlit("4");
        reveal_strlit("5");
        reveal_strlit("6");
        reveal_strlit("7");
        reveal_strlit("8");
        reveal_strlit("9");
    }
    let text = if digit == 0 {
        "0"
    } else if digit == 1 {
        "1"
    } else if digit == 2 {
        "2"
    } else if digit == 3 {
        "3"
    } else if digit == 4 {
        "4"
    } else if digit == 5 {
        "5"
    } else if digit == 6 {
        "6"
    } else if digit == 7 {
        "7"
    } else if digit == 8 {
        "8"
    } else {
        "9"
    };
    assert(text@ =~= seq![digit_char(digit as nat)]);
    out.append(text);
    assert(out@ =~= old(out)@ + decimal(n as nat));
}

} // verus!
