//! Splitting a source line into tokens.

use vstd::prelude::*;

verus! {

/// The line with every comma taken out.
pub open spec fn without_commas(line: Seq<char>) -> Seq<char> {
    line.filter(|c: char| c != ',')
}

/// The pieces of `text` between its spaces. Every space separates two pieces,
/// so there is one more piece than there are spaces and a piece may be empty.
pub open spec fn split_on_spaces(text: Seq<char>) -> Seq<Seq<char>>
    decreases text.len(),
{
    if text.len() == 0 {
        seq![Seq::empty()]
    } else {
        let before = split_on_spaces(text.drop_last());
        if text.last() == ' ' {
            before.push(Seq::empty())
        } else {
            before.drop_last().push(before.last().push(text.last()))
        }
    }
}

/// The tokens of a line: commas are dropped, then the line is split at every
/// space. The first token is the mnemonic, the others are the operands.
pub open spec fn tokens_of(line: Seq<char>) -> Seq<Seq<char>> {
    split_on_spaces(without_commas(line))
}

/// The character sequences that a list of strings holds.
pub open spec fn texts(strings: Seq<String>) -> Seq<Seq<char>> {
    strings.map_values(|string: String| string@)
}

/// The text holds no space and no comma.
pub open spec fn is_word(text: Seq<char>) -> bool {
    forall|i: int| 0 <= i < text.len() ==> #[trigger] text[i] != ' ' && text[i] != ','
}

/// A split has at least one piece.
pub proof fn lemma_split_nonempty(text: Seq<char>)
    ensures
        split_on_spaces(text).len() >= 1,
    decreases text.len(),
{
    if text.len() > 0 {
        lemma_split_nonempty(text.drop_last());
    }
}

/// What one more character does to the tokens of a line: a comma nothing, a
/// space starts a new token, and any other character is added to the last
/// token.
pub proof fn lemma_tokens_push(line: Seq<char>, c: char)
    ensures
        tokens_of(line).len() >= 1,
        tokens_of(line.push(c)) == if c == ',' {
            tokens_of(line)
        } else if c == ' ' {
            tokens_of(line).push(Seq::empty())
        } else {
            tokens_of(line).drop_last().push(tokens_of(line).last().push(c))
        },
{
    let keep = |c: char| c != ',';
    line.lemma_filter_push(c, keep);
    lemma_split_nonempty(without_commas(line));
    if c != ',' {
        assert(without_commas(line).push(c).drop_last() =~= without_commas(line));
    }
}

/// The characters of a string.
pub fn chars_of(text: &str) -> (chars: Vec<char>)
    ensures
        chars@ == text@,
{
    let mut chars: Vec<char> = Vec::new();
    for c in it: text.chars()
        invariant
            chars@ == it.seq().take(it.index() as int),
    {
        chars.push(c);
    }
    chars
}

/// Tells whether the letters of a token are those of the given word.
pub fn spells(token: &[char], word: &str) -> (r: bool)
    ensures
        r == (token@ == word@),
{
    let mut i: usize = 0;
    let ghost mut seen: Seq<char> = Seq::empty();
    for c in it: word.chars()
        invariant
            i == it.index(),
            i <= token.len(),
            seen == it.seq().take(it.index() as int),
            seen == token@.take(i as int),
            it.seq() == word@,
    {
        if i >= token.len() || token[i] != c {
            assert(token@ != word@);
            return false;
        }
        proof {
            assert(seen.push(c) =~= it.seq().take(it.index() + 1));
            assert(seen.push(c) =~= token@.take(i + 1));
            seen = seen.push(c);
        }
        i = i + 1;
    }
    proof {
        assert(seen =~= word@);
        if i == token.len() {
            assert(token@.take(i as int) =~= token@);
        }
    }
    i == token.len()
}

/// Splits a line into its tokens.
pub fn tokenize(line: &str) -> (tokens: Vec<String>)
    ensures
        texts(tokens@) == tokens_of(line@),
        tokens@.len() >= 1,
{
    let mut done: Vec<String> = Vec::new();
    let mut current = String::new();
    // The characters from `start` to `i` belong to the current token and are
    // not yet copied into it.
    let mut start: usize = 0;
    let mut i: usize = 0;
    let length: usize = line.unicode_len();
    let ghost mut seen: Seq<char> = Seq::empty();
    proof {
        reveal(Seq::filter);
        assert(texts(done@).push(current@ + line@.subrange(0, 0)) =~= tokens_of(seen));
    }
    for c in it: line.chars()
        invariant
            it.seq() == line@,
            length == line@.len(),
            i == it.index(),
            start <= i,
            seen == line@.take(i as int),
            is_word(line@.subrange(start as int, i as int)),
            texts(done@).push(current@ + line@.subrange(start as int, i as int)) == tokens_of(
                seen,
            ),
    {
        let ghost pending = line@.subrange(start as int, i as int);
        proof {
            lemma_tokens_push(seen, c);
            assert(seen.push(c) =~= line@.take(i + 1));
            assert(texts(done@).push(current@ + pending).drop_last() =~= texts(done@));
            seen = seen.push(c);
        }
        if c == ',' {
            current.append(line.substring_char(start, i));
            start = i + 1;
            proof {
                assert(current@ + line@.subrange(start as int, i + 1) =~= current@);
            }
        } else if c == ' ' {
            current.append(line.substring_char(start, i));
            proof {
                assert(texts(done@.push(current)) =~= texts(done@).push(current@));
            }
            done.push(current);
            current = String::new();
            start = i + 1;
            proof {
                assert(current@ + line@.subrange(start as int, i + 1) =~= Seq::<char>::empty());
            }
        } else {
            proof {
                assert(line@.subrange(start as int, i + 1) =~= pending.push(c));
                assert(current@ + pending.push(c) =~= (current@ + pending).push(c));
            }
        }
        i = i + 1;
    }
    proof {
        assert(seen =~= line@);
    }
    current.append(line.substring_char(start, i));
    proof {
        assert(texts(done@.push(current)) =~= texts(done@).push(current@));
    }
    done.push(current);
    done
}

} // verus!
