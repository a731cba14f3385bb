//! Text building blocks: decimal numerals, and lines joined by newlines.

use vstd::prelude::*;
use vstd::string::*;

verus! {

/// The character for one decimal digit.
pub open spec fn digit_char(d: int) -> char {
    if d == 0 {
        '0'
    } else if d == 1 {
        '1'
    } else if d == 2 {
        '2'
    } else if d == 3 {
        '3'
    } else if d == 4 {
        '4'
    } else if d == 5 {
        '5'
    } else if d == 6 {
        '6'
    } else if d == 7 {
        '7'
    } else if d == 8 {
        '8'
    } else {
        '9'
    }
}

/// The decimal digits of a natural number, most significant first, with no
/// leading zero.
pub open spec fn digits_text(n: nat) -> Seq<char>
    decreases n,
{
    if n < 10 {
        seq![digit_char(n as int)]
    } else {
        digits_text(n / 10).push(digit_char((n % 10) as int))
    }
}

/// The decimal numeral of an integer: a minus sign for a negative number,
/// followed by the digits of its magnitude.
pub open spec fn decimal_text(n: int) -> Seq<char> {
    if n < 0 {
        seq!['-'] + digits_text((-n) as nat)
    } else {
        digits_text(n as nat)
    }
}

/// The lines of `lines`, with a newline between each two neighbours.
pub open spec fn join_lines(lines: Seq<Seq<char>>) -> Seq<char>
    decreases lines.len(),
{
    if lines.len() == 0 {
        Seq::empty()
    } else if lines.len() == 1 {
        lines[0]
    } else {
        join_lines(lines.drop_last()) + seq!['\n'] + lines.last()
    }
}

/// The texts of `texts` one after another.
pub open spec fn concat(texts: Seq<Seq<char>>) -> Seq<char>
    decreases texts.len(),
{
    if texts.len() == 0 {
        Seq::empty()
    } else {
        concat(texts.drop_last()) + texts.last()
    }
}

/// The contents of a list of strings.
pub open spec fn views(strings: Seq<String>) -> Seq<Seq<char>> {
    strings.map_values(|s: String| s@)
}

/// A single text concatenates to itself.
pub proof fn lemma_concat_one(text: Seq<char>)
    ensures
        concat(seq![text]) == text,
{
    reveal_with_fuel(concat, 2);
    assert(seq![text].drop_last() =~= Seq::<Seq<char>>::empty());
    assert(concat(seq![text]) =~= text);
}

/// Concatenation distributes over appending two lists of texts.
pub proof fn lemma_concat_append(a: Seq<Seq<char>>, b: Seq<Seq<char>>)
    ensures
        concat(a + b) == concat(a) + concat(b),
    decreases b.len(),
{
    if b.len() == 0 {
        assert(a + b =~= a);
        assert(concat(a) + concat(b) =~= concat(a));
    } else {
        assert((a + b).drop_last() =~= a + b.drop_last());
        lemma_concat_append(a, b.drop_last());
        assert(concat(a + b) =~= concat(a) + concat(b));
    }
}

fn digit_str(d: u32) -> (s: &'static str)
    requires
        d < 10,
    ensures
        s@ == seq![digit_char(d as int)],
{
    proof {
        reveal_strlit("0");
        reveal_strlit("1");
        reveal_strlit("2");
        reveal_strlit("3");
        reveal_strlit("4");
        reveal_strlit("5");
        reveal_strlit("6");
        reveal_strlit("7");
        reveal_strlit("8");
        reveal_strlit("9");
    }
    let s = if d == 0 {
        "0"
    } else if d == 1 {
        "1"
    } else if d == 2 {
        "2"
    } else if d == 3 {
        "3"
    } else if d == 4 {
        "4"
    } else if d == 5 {
        "5"
    } else if d == 6 {
        "6"
    } else if d == 7 {
        "7"
    } else if d == 8 {
        "8"
    } else {
        "9"
    };
    assert(s@ =~= seq![digit_char(d as int)]);
    s
}

fn push_digits(output: &mut String, n: u32)
    ensures
        final(output)@ == old(output)@ + digits_text(n as nat),
    decreases n,
{
    if n >= 10 {
        push_digits(output, n / 10);
    }
    output.append(digit_str(n % 10));
    assert(output@ =~= old(output)@ + digits_text(n as nat));
}

/// Appends the decimal numeral of `value` to `output`.
pub fn push_decimal(output: &mut String, value: i32)
    ensures
        final(output)@ == old(output)@ + decimal_text(value as int),
{
    if value < 0 {
        output.append("-");
        proof {
            reveal_strlit("-");
        }
        let magnitude: i64 = -(value as i64);
        push_digits(output, magnitude as u32);
        assert(output@ =~= old(output)@ + decimal_text(value as int));
    } else {
        push_digits(output, value as u32);
    }
}

/// Joins `lines` with a newline between each two neighbours.
pub fn join(lines: &Vec<String>) -> (text: String)
    ensures
        text@ == join_lines(views(lines@)),
{
    let ghost all = views(lines@);
    let mut text = String::new();
    let mut i: usize = 0;
    while i < lines.len()
        invariant
            i <= lines.len(),
            all == views(lines@),
            text@ == join_lines(all.take(i as int)),
        decreases lines.len() - i,
    {
        if i > 0 {
            text.append("\n");
            proof {
                reveal_strlit("\n");
            }
        }
        text.append(lines[i].as_str());
        proof {
            let next = all.take(i + 1);
            assert(next.drop_last() =~= all.take(i as int));
            assert(next.last() == lines@[i as int]@);
            if i == 0 {
                assert(text@ =~= next[0]);
            } else {
                assert(text@ =~= join_lines(all.take(i as int)) + seq!['\n'] + next.last());
            }
        }
        i += 1;
    }
    assert(all.take(lines.len() as int) =~= all);
    text
}

} // verus!
