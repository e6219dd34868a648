//! Splitting text at a separator and writing whole numbers in decimal.

use vstd::prelude::*;
use vstd::std_specs::iter::IteratorSpec;

verus! {

/// The characters of each string, in order.
pub open spec fn texts(strings: Seq<String>) -> Seq<Seq<char>> {
    strings.map_values(|s: String| s@)
}

/// The pieces of `text` between occurrences of `sep`, read from the front:
/// a separator opens a new piece, any other character lengthens the last
/// one. A text with `n` separators has `n + 1` pieces, some perhaps empty.
pub open spec fn split(text: Seq<char>, sep: char) -> Seq<Seq<char>>
    decreases text.len(),
{
    if text.len() == 0 {
        seq![Seq::empty()]
    } else {
        let before = split(text.drop_last(), sep);
        if text.last() == sep {
            before.push(Seq::empty())
        } else {
            before.drop_last().push(before.last().push(text.last()))
        }
    }
}

/// The pieces put together again, with `sep` between each two.
pub open spec fn joined(pieces: Seq<Seq<char>>, sep: char) -> Seq<char>
    decreases pieces.len(),
{
    if pieces.len() == 0 {
        Seq::empty()
    } else if pieces.len() == 1 {
        pieces[0]
    } else {
        joined(pieces.drop_last(), sep).push(sep) + pieces.last()
    }
}

/// A split has at least one piece, no piece holds the separator, and the
/// pieces joined by the separator are the text again.
pub proof fn lemma_split_then_join(text: Seq<char>, sep: char)
    ensures
        split(text, sep).len() >= 1,
        joined(split(text, sep), sep) == text,
        forall|i: int, k: int|
            0 <= i < split(text, sep).len() && 0 <= k < split(text, sep)[i].len() ==> #[trigger] split(
                text,
                sep,
            )[i][k] != sep,
    decreases text.len(),
{
    if text.len() > 0 {
        let before = split(text.drop_last(), sep);
        let pieces = split(text, sep);
        let c = text.last();
        lemma_split_then_join(text.drop_last(), sep);
        assert(text.drop_last().push(c) == text);
        if c == sep {
            assert(pieces.drop_last() == before);
            assert(joined(before, sep).push(sep) + Seq::<char>::empty() == text);
        } else {
            let grown = before.last().push(c);
            if before.len() > 1 {
                assert(pieces.drop_last() == before.drop_last());
                assert(joined(before.drop_last(), sep).push(sep) + grown == (joined(
                    before.drop_last(),
                    sep,
                ).push(sep) + before.last()).push(c));
            }
        }
        assert forall|i: int, k: int|
            0 <= i < pieces.len() && 0 <= k < pieces[i].len() implies #[trigger] pieces[i][k]
            != sep by {
            if i < pieces.len() - 1 {
                assert(pieces[i] == before[i]);
            } else if c != sep && k < before.last().len() {
                assert(pieces[i][k] == before[before.len() - 1][k]);
            }
        }
    }
}

/// The pieces of `text` between occurrences of `sep`.
pub fn split_text(text: &str, sep: char) -> (pieces: Vec<String>)
    ensures
        texts(pieces@) == split(text@, sep),
{
    broadcast use vstd::string::group_string_axioms;

    let n: usize = text.unicode_len();
    let mut pieces: Vec<String> = Vec::new();
    let mut start: usize = 0;
    let mut i: usize = 0;
    let mut rest = text.chars();
    proof {
        assert(text@.take(0) == Seq::<char>::empty());
        assert(text@.subrange(0, 0) == Seq::<char>::empty());
        assert(texts(pieces@).push(Seq::<char>::empty()) == seq![Seq::<char>::empty()]);
        assert(text@.skip(0) == text@);
    }
    loop
        invariant
            n == text@.len(),
            start <= i <= n,
            rest.remaining() == text@.skip(i as int),
            texts(pieces@).push(text@.subrange(start as int, i as int)) == split(
                text@.take(i as int),
                sep,
            ),
        ensures
            i == n,
        decreases n - i,
    {
        let next = rest.next();
        let c = match next {
            Some(c) => c,
            None => {
                break ;
            },
        };
        proof {
            assert(text@.skip(i as int).len() > 0);
            assert(text@.skip(i as int).drop_first() == text@.skip(i as int + 1));
            let upto = text@.take(i as int + 1);
            assert(upto.drop_last() == text@.take(i as int));
            assert(upto.last() == c);
            let before = split(text@.take(i as int), sep);
            assert(before.last() == text@.subrange(start as int, i as int));
            assert(before.drop_last() == texts(pieces@));
        }
        if c == sep {
            let piece = text.substring_char(start, i).to_owned();
            proof {
                assert(texts(pieces@.push(piece)) == texts(pieces@).push(piece@));
                assert(text@.subrange(i as int + 1, i as int + 1) == Seq::<char>::empty());
            }
            pieces.push(piece);
            start = i + 1;
        } else {
            proof {
                assert(text@.subrange(start as int, i as int).push(c) == text@.subrange(
                    start as int,
                    i as int + 1,
                ));
            }
        }
        i += 1;
    }
    let piece = text.substring_char(start, n).to_owned();
    proof {
        assert(text@.take(n as int) == text@);
        assert(texts(pieces@.push(piece)) == texts(pieces@).push(piece@));
    }
    pieces.push(piece);
    pieces
}

/// The character of a decimal digit.
pub open spec fn digit(d: int) -> char
    recommends
        0 <= d < 10,
{
    seq!['0', '1', '2', '3', '4', '5', '6', '7', '8', '9'][d]
}

/// The decimal digits of a natural number, without leading zeros.
pub open spec fn digits(n: nat) -> Seq<char>
    decreases n,
{
    if n < 10 {
        seq![digit(n as int)]
    } else {
        digits(n / 10).push(digit((n % 10) as int))
    }
}

/// A whole number in decimal, with a minus sign where it is negative.
pub open spec fn decimal(n: int) -> Seq<char> {
    if n < 0 {
        seq!['-'] + digits((-n) as nat)
    } else {
        digits(n as nat)
    }
}

fn digit_text(d: u64) -> (text: &'static str)
    requires
        d < 10,
    ensures
        text@ == seq![digit(d as int)],
{
    proof {
        reveal_strlit("0");
        reveal_strlit("1");
        reveal_strlit("2");
        reveal_strlit("3");
        reveal_strlit("4");
        reveal_strlit("5");
        reveal_strlit("6");
        reveal_strlit("7");
        reveal_strlit("8");
        reveal_strlit("9");
    }
    let text = match d {
        0 => "0",
        1 => "1",
        2 => "2",
        3 => "3",
        4 => "4",
        5 => "5",
        6 => "6",
        7 => "7",
        8 => "8",
        _ => "9",
    };
    assert(text@ =~= seq![digit(d as int)]);
    text
}

/// Appends the decimal digits of `n` to `out`.
pub fn push_digits(out: &mut String, n: u64)
    ensures
        final(out)@ == old(out)@ + digits(n as nat),
    decreases n,
{
    if n >= 10 {
        push_digits(out, n / 10);
    }
    out.append(digit_text(n % 10));
    proof {
        if n >= 10 {
            assert(old(out)@ + digits((n / 10) as nat) + seq![digit((n % 10) as int)] == old(out)@
                + digits((n / 10) as nat).push(digit((n % 10) as int)));
        }
    }
}

/// Appends `n` in decimal to `out`.
pub fn push_decimal(out: &mut String, n: i64)
    ensures
        final(out)@ == old(out)@ + decimal(n as int),
{
    if n < 0 {
        proof {
            reveal_strlit("-");
        }
        out.append("-");
        assert("-"@ =~= seq!['-']);
        let size: u64 = if n == i64::MIN {
            9_223_372_036_854_775_808u64
        } else {
            (-n) as u64
        };
        push_digits(out, size);
        assert(old(out)@ + seq!['-'] + digits(size as nat) == old(out)@ + (seq!['-'] + digits(
            size as nat,
        )));
    } else {
        push_digits(out, n as u64);
    }
}

} // verus!
