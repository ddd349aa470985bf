//! Text helpers: decimal numerals and prefix stripping.

use vstd::prelude::*;
use vstd::string::*;

verus! {

/// The character that writes the decimal digit `d`; meant for `d < 10`.
pub open spec fn digit_char(d: nat) -> char {
    if d == 0 {
        '0'
    } else if d == 1 {
        '1'
    } else if d == 2 {
        '2'
    } else if d == 3 {
        '3'
    } else if d == 4 {
        '4'
    } else if d == 5 {
        '5'
    } else if d == 6 {
        '6'
    } else if d == 7 {
        '7'
    } else if d == 8 {
        '8'
    } else {
        '9'
    }
}

/// The digit that `c` writes, and 0 for any other character.
pub open spec fn digit_value(c: char) -> nat {
    if c == '1' {
        1
    } else if c == '2' {
        2
    } else if c == '3' {
        3
    } else if c == '4' {
        4
    } else if c == '5' {
        5
    } else if c == '6' {
        6
    } else if c == '7' {
        7
    } else if c == '8' {
        8
    } else if c == '9' {
        9
    } else {
        0
    }
}

/// The decimal numeral of `n`, most significant digit first and without
/// leading zeros.
pub open spec fn decimal(n: nat) -> Seq<char>
    decreases n,
{
    if n < 10 {
        seq![digit_char(n)]
    } else {
        decimal(n / 10).push(digit_char(n % 10))
    }
}

/// The number that a string of digits writes.
pub open spec fn decimal_value(digits: Seq<char>) -> nat
    decreases digits.len(),
{
    if digits.len() == 0 {
        0
    } else {
        decimal_value(digits.drop_last()) * 10 + digit_value(digits.last())
    }
}

/// Reading a numeral back gives the number it was written from.
pub proof fn lemma_decimal_value(n: nat)
    ensures
        decimal_value(decimal(n)) == n,
    decreases n,
{
    if n < 10 {
        assert(decimal(n).drop_last() =~= Seq::<char>::empty());
        assert(decimal_value(decimal(n).drop_last()) == 0);
    } else {
        lemma_decimal_value(n / 10);
        assert(decimal(n).drop_last() =~= decimal(n / 10));
    }
}

/// Different numbers have different numerals.
pub proof fn lemma_decimal_injective(a: nat, b: nat)
    requires
        decimal(a) == decimal(b),
    ensures
        a == b,
{
    lemma_decimal_value(a);
    lemma_decimal_value(b);
}

fn digit_str(d: u8) -> (s: &'static str)
    requires
        d < 10,
    ensures
        s@ == seq![digit_char(d as nat)],
{
    proof {
        reveal_strlit("0");
        reveal_strlit("1");
        reveal_strlit("2");
        reveal_strlit("3");
        reveal_strlit("4");
        reveal_strlit("5");
        reveal_strlit("6");
        reveal_strlit("7");
        reveal_strlit("8");
        reveal_strlit("9");
    }
    match d {
        0 => "0",
        1 => "1",
        2 => "2",
        3 => "3",
        4 => "4",
        5 => "5",
        6 => "6",
        7 => "7",
        8 => "8",
        _ => "9",
    }
}

/// Writes `n` as a decimal numeral.
pub fn decimal_string(n: u64) -> (s: String)
    ensures
        s@ == decimal(n as nat),
    decreases n,
{
    if n < 10 {
        String::from_str(digit_str(n as u8))
    } else {
        let mut s = decimal_string(n / 10);
        s.append(digit_str((n % 10) as u8));
        s
    }
}

/// Whether `text` begins with `prefix`.
pub open spec fn starts_with(text: Seq<char>, prefix: Seq<char>) -> bool {
    prefix.len() <= text.len() && text.subrange(0, prefix.len() as int) == prefix
}

/// What is left of `text` after `prefix`, where it begins with it.
pub open spec fn without_prefix(text: Seq<char>, prefix: Seq<char>) -> Option<Seq<char>> {
    if starts_with(text, prefix) {
        Some(text.subrange(prefix.len() as int, text.len() as int))
    } else {
        None
    }
}

/// Removes `prefix` from the front of `text`, or returns `None` where `text`
/// does not begin with it.
pub fn strip_prefix<'a>(text: &'a str, prefix: &str) -> (rest: Option<&'a str>)
    ensures
        match rest {
            Some(r) => without_prefix(text@, prefix@) == Some(r@),
            None => without_prefix(text@, prefix@) is None,
        },
{
    let n: usize = text.unicode_len();
    let p: usize = prefix.unicode_len();
    if n < p {
        return None;
    }
    let head = String::from_str(text.substring_char(0, p));
    let wanted = String::from_str(prefix);
    if head == wanted {
        Some(text.substring_char(p, n))
    } else {
        None
    }
}

/// How many times `wanted` occurs in `text`.
pub open spec fn occurrences(text: Seq<char>, wanted: char) -> nat
    decreases text.len(),
{
    if text.len() == 0 {
        0
    } else {
        occurrences(text.drop_last(), wanted) + if text.last() == wanted {
            1nat
        } else {
            0nat
        }
    }
}

/// The occurrences in a text made of two are those in the one and those in
/// the other.
pub proof fn lemma_occurrences_add(a: Seq<char>, b: Seq<char>, wanted: char)
    ensures
        occurrences(a + b, wanted) == occurrences(a, wanted) + occurrences(b, wanted),
    decreases b.len(),
{
    if b.len() == 0 {
        assert(a + b =~= a);
    } else {
        lemma_occurrences_add(a, b.drop_last(), wanted);
        assert((a + b).drop_last() =~= a + b.drop_last());
    }
}

/// A character occurs in a text at least once where the text contains it,
/// and not at all where it does not.
pub proof fn lemma_occurrences_contains(text: Seq<char>, wanted: char)
    ensures
        text.contains(wanted) <==> occurrences(text, wanted) > 0,
    decreases text.len(),
{
    if text.len() > 0 {
        lemma_occurrences_contains(text.drop_last(), wanted);
        if text.contains(wanted) {
            let i = choose|i: int| 0 <= i < text.len() && text[i] == wanted;
            if i < text.len() - 1 {
                assert(text.drop_last()[i] == wanted);
            }
        }
        if text.drop_last().contains(wanted) {
            let i = choose|i: int| 0 <= i < text.drop_last().len() && text.drop_last()[i] == wanted;
            assert(text[i] == wanted);
        }
        if text.last() == wanted {
            assert(text[text.len() - 1] == wanted);
        }
    }
}

/// Whether `wanted` occurs in `text` exactly `times` times.
pub fn occurs_times(text: &str, wanted: char, times: usize) -> (exactly: bool)
    ensures
        exactly == (occurrences(text@, wanted) == times),
{
    let mut seen: usize = 0;
    let mut over: bool = false;
    for c in it: text.chars()
        invariant
            it.seq() == text@,
            seen <= times,
            over ==> occurrences(text@.take(it.index()), wanted) > times,
            !over ==> occurrences(text@.take(it.index()), wanted) == seen,
    {
        proof {
            let i = it.index();
            assert(text@.take(i + 1).drop_last() =~= text@.take(i));
            assert(text@.take(i + 1).last() == c);
        }
        if c == wanted {
            if seen < times {
                seen = seen + 1;
            } else {
                over = true;
            }
        }
    }
    proof {
        assert(text@.take(text@.len() as int) =~= text@);
    }
    !over && seen == times
}

} // verus!
