//! Text building blocks shared by the translators: decimal rendering,
//! quoting and escaping of string literals, and joining of fragments.

use vstd::prelude::*;
use vstd::string::*;
use vstd::utf8::{encode_utf8, encode_utf8_decode_utf8};

verus! {

/// Tells whether two texts hold the same characters.
pub fn same_text(a: &str, b: &str) -> (r: bool)
    ensures
        r == (a@ == b@),
{
    let x = a.as_bytes();
    let y = b.as_bytes();
    proof {
        encode_utf8_decode_utf8(a@);
        encode_utf8_decode_utf8(b@);
    }
    if x.len() != y.len() {
        return false;
    }
    let mut i: usize = 0;
    while i < x.len()
        invariant
            i <= x.len(),
            x.len() == y.len(),
            x@ == encode_utf8(a@),
            y@ == encode_utf8(b@),
            forall|j: int| 0 <= j < i ==> x@[j] == y@[j],
        decreases x.len() - i,
    {
        if x[i] != y[i] {
            return false;
        }
        i = i + 1;
    }
    proof {
        assert(x@ =~= y@);
    }
    true
}

/// `String::push` of the standard library: the character is appended to the
/// end of the string and nothing else changes.
pub assume_specification[ String::push ](s: &mut String, c: char)
    ensures
        final(s)@ == old(s)@.push(c),
;

/// The views of a sequence of strings, in order.
pub open spec fn texts(v: Seq<String>) -> Seq<Seq<char>> {
    Seq::new(v.len(), |i: int| v[i]@)
}

/// Appending texts to texts appends their views.
pub proof fn lemma_texts_add(a: Seq<String>, b: Seq<String>)
    ensures
        texts(a + b) == texts(a) + texts(b),
{
    assert(texts(a + b) =~= texts(a) + texts(b));
}

/// Appending one text appends its view.
pub proof fn lemma_texts_push(a: Seq<String>, s: String)
    ensures
        texts(a.push(s)) == texts(a).push(s@),
{
    assert(texts(a.push(s)) =~= texts(a).push(s@));
}

/// The character that writes the decimal digit `d`.
pub open spec fn digit_char(d: nat) -> char {
    if d == 0 {
        '0'
    } else if d == 1 {
        '1'
    } else if d == 2 {
        '2'
    } else if d == 3 {
        '3'
    } else if d == 4 {
        '4'
    } else if d == 5 {
        '5'
    } else if d == 6 {
        '6'
    } else if d == 7 {
        '7'
    } else if d == 8 {
        '8'
    } else {
        '9'
    }
}

/// The decimal digits of `n`, most significant first, without leading zeros.
pub open spec fn decimal_digits(n: nat) -> Seq<char>
    decreases n,
{
    if n < 10 {
        seq![digit_char(n)]
    } else {
        decimal_digits(n / 10).push(digit_char(n % 10))
    }
}

/// The decimal text of an integer: a minus sign for a negative number, then
/// the digits of its magnitude.
pub open spec fn decimal_text(i: int) -> Seq<char> {
    if i < 0 {
        seq!['-'] + decimal_digits((-i) as nat)
    } else {
        decimal_digits(i as nat)
    }
}

fn digit(d: u64) -> (c: char)
    requires
        d < 10,
    ensures
        c == digit_char(d as nat),
{
    if d == 0 {
        '0'
    } else if d == 1 {
        '1'
    } else if d == 2 {
        '2'
    } else if d == 3 {
        '3'
    } else if d == 4 {
        '4'
    } else if d == 5 {
        '5'
    } else if d == 6 {
        '6'
    } else if d == 7 {
        '7'
    } else if d == 8 {
        '8'
    } else {
        '9'
    }
}

fn push_decimal(out: &mut String, n: u64)
    ensures
        final(out)@ == old(out)@ + decimal_digits(n as nat),
    decreases n,
{
    if n >= 10 {
        push_decimal(out, n / 10);
    }
    out.push(digit(n % 10));
}

/// Renders a signed integer in decimal.
pub fn integer_text(i: i64) -> (r: String)
    ensures
        r@ == decimal_text(i as int),
{
    let mut out = String::new();
    if i < 0 {
        out.push('-');
        let magnitude: u64 = ((-(i + 1)) as u64) + 1;
        push_decimal(&mut out, magnitude);
    } else {
        push_decimal(&mut out, i as u64);
    }
    out
}

/// Whether a character is a decimal digit.
pub open spec fn is_digit(c: char) -> bool {
    '0' <= c && c <= '9'
}

/// Where the digits of a number text begin: after its minus sign, if it
/// has one.
pub open spec fn digits_start(t: Seq<char>) -> int {
    if t.len() > 0 && t[0] == '-' {
        1
    } else {
        0
    }
}

/// Whether every character of `t` from `start` up to `end` is a digit or
/// a point.
pub open spec fn digits_or_points(t: Seq<char>, start: int, end: int) -> bool {
    forall|i: int| start <= i < end ==> is_digit(#[trigger] t[i]) || t[i] == '.'
}

/// Whether `t` has a point from `start` up to `end`.
pub open spec fn has_point(t: Seq<char>, start: int, end: int) -> bool {
    exists|k: int| start <= k < end && #[trigger] t[k] == '.'
}

/// Whether `t` has at most one point from `start` up to `end`.
pub open spec fn at_most_one_point(t: Seq<char>, start: int, end: int) -> bool {
    forall|i: int, j: int|
        start <= i < j < end ==> !(#[trigger] t[i] == '.' && #[trigger] t[j] == '.')
}

/// Whether a text writes a number in plain decimal: an optional minus
/// sign, then digits with at most one point among them, the first and the
/// last character of which are digits.
#[verifier::opaque]
pub open spec fn is_decimal_number(t: Seq<char>) -> bool {
    let start = digits_start(t);
    &&& start < t.len()
    &&& is_digit(t[start])
    &&& is_digit(t[t.len() - 1])
    &&& digits_or_points(t, start, t.len() as int)
    &&& at_most_one_point(t, start, t.len() as int)
}

/// Tells whether a text writes a number in plain decimal.
pub fn decimal_number(text: &str) -> (r: bool)
    ensures
        r == is_decimal_number(text@),
{
    let ghost start = digits_start(text@);
    let mut at_start = true;
    let mut began = false;
    let mut first = false;
    let mut last = false;
    let mut pointed = false;
    let mut fine = true;
    for c in it: text.chars()
        invariant
            it.seq() == text@,
            start == digits_start(text@),
            at_start == (it.index() == 0),
            began == (it.index() > start),
            first == (it.index() > start && is_digit(text@[start])),
            last == (it.index() > start && is_digit(text@[it.index() - 1])),
            pointed == has_point(text@, start, it.index() as int),
            fine == (digits_or_points(text@, start, it.index() as int) && at_most_one_point(
                text@,
                start,
                it.index() as int,
            )),
    {
        let ghost at = it.index() as int;
        let digit = '0' <= c && c <= '9';
        let point = c == '.';
        if !at_start || c != '-' {
            proof {
                assert(text@[at] == c);
                if point && pointed {
                    let k = choose|k: int| start <= k < at && #[trigger] text@[k] == '.';
                    assert(text@[k] == '.' && text@[at] == '.');
                    assert(!at_most_one_point(text@, start, at + 1));
                }
                if !digit && !point {
                    assert(!digits_or_points(text@, start, at + 1));
                }
                if !fine {
                    if !digits_or_points(text@, start, at) {
                        assert(!digits_or_points(text@, start, at + 1));
                    } else {
                        assert(!at_most_one_point(text@, start, at + 1));
                    }
                }
                if fine && (digit || (point && !pointed)) {
                    assert(digits_or_points(text@, start, at + 1));
                    assert forall|i: int, j: int| start <= i < j < at + 1 implies !(
                    #[trigger] text@[i] == '.' && #[trigger] text@[j] == '.') by {
                        if j == at && text@[i] == '.' && text@[j] == '.' {
                            assert(has_point(text@, start, at));
                        }
                    }
                }
                if point {
                    assert(has_point(text@, start, at + 1));
                } else if pointed {
                    let k = choose|k: int| start <= k < at && #[trigger] text@[k] == '.';
                    assert(start <= k < at + 1 && text@[k] == '.');
                } else {
                    assert forall|k: int| start <= k < at + 1 implies #[trigger] text@[k]
                        != '.' by {
                        if k < at && text@[k] == '.' {
                            assert(has_point(text@, start, at));
                        }
                    }
                }
            }
            fine = fine && (digit || (point && !pointed));
            pointed = pointed || point;
            if !began {
                first = digit;
                began = true;
            }
            last = digit;
        }
        at_start = false;
    }
    proof {
        reveal(is_decimal_number);
    }
    began && first && last && fine
}

/// What one character of a string literal becomes inside the quotes: a quote
/// or a backslash is preceded by a backslash, any other character stands for
/// itself.
pub open spec fn escape_char(c: char) -> Seq<char> {
    if c == '\'' || c == '\\' {
        seq!['\\', c]
    } else {
        seq![c]
    }
}

/// The escaped form of a text, character by character.
pub open spec fn escape_text(s: Seq<char>) -> Seq<char>
    decreases s.len(),
{
    if s.len() == 0 {
        Seq::empty()
    } else {
        escape_text(s.drop_last()) + escape_char(s.last())
    }
}

/// A text as a quoted string literal of the target query language.
pub open spec fn quoted_text(s: Seq<char>) -> Seq<char> {
    seq!['\''] + escape_text(s) + seq!['\'']
}

/// Writes a text as a quoted, escaped string literal.
pub fn quote_text(text: &str) -> (r: String)
    ensures
        r@ == quoted_text(text@),
{
    let mut out = String::new();
    out.push('\'');
    for c in it: text.chars()
        invariant
            it.seq() == text@,
            out@ == seq!['\''] + escape_text(text@.take(it.index() as int)),
    {
        proof {
            let i = it.index() as int;
            assert(text@.take(i + 1).drop_last() == text@.take(i));
            assert(text@.take(i + 1).last() == c);
        }
        if c == '\'' || c == '\\' {
            out.push('\\');
        }
        out.push(c);
    }
    proof {
        assert(text@.take(text@.len() as int) == text@);
    }
    out.push('\'');
    out
}

/// The parts written one after another with `sep` between neighbours.
pub open spec fn join(parts: Seq<Seq<char>>, sep: Seq<char>) -> Seq<char>
    decreases parts.len(),
{
    if parts.len() == 0 {
        Seq::empty()
    } else if parts.len() == 1 {
        parts[0]
    } else {
        join(parts.drop_last(), sep) + sep + parts.last()
    }
}

/// Joins the parts with `sep` between neighbours.
pub fn join_texts(parts: &Vec<String>, sep: &str) -> (r: String)
    ensures
        r@ == join(texts(parts@), sep@),
{
    let mut out = String::new();
    let mut i: usize = 0;
    while i < parts.len()
        invariant
            i <= parts.len(),
            out@ == join(texts(parts@).take(i as int), sep@),
        decreases parts.len() - i,
    {
        proof {
            let all = texts(parts@);
            assert(all.take(i + 1).drop_last() == all.take(i as int));
            assert(all.take(i + 1).last() == parts@[i as int]@);
        }
        if i > 0 {
            out.append(sep);
        }
        out.append(parts[i].as_str());
        i = i + 1;
    }
    proof {
        assert(texts(parts@).take(parts@.len() as int) == texts(parts@));
    }
    out
}

/// Each part between a pair of round brackets.
pub open spec fn bracketed(parts: Seq<Seq<char>>) -> Seq<Seq<char>> {
    Seq::new(parts.len(), |i: int| seq!['('] + parts[i] + seq![')'])
}

/// Puts each part between round brackets and joins them with `sep`.
pub fn join_bracketed(parts: &Vec<String>, sep: &str) -> (r: String)
    ensures
        r@ == join(bracketed(texts(parts@)), sep@),
{
    let mut wrapped: Vec<String> = Vec::new();
    let mut i: usize = 0;
    while i < parts.len()
        invariant
            i <= parts.len(),
            wrapped@.len() == i,
            forall|j: int| 0 <= j < i ==> (#[trigger] wrapped@[j])@ == seq!['('] + parts@[j]@ + seq![')'],
        decreases parts.len() - i,
    {
        let mut item = String::new();
        item.push('(');
        item.append(parts[i].as_str());
        item.push(')');
        wrapped.push(item);
        i = i + 1;
    }
    proof {
        assert(texts(wrapped@) =~= bracketed(texts(parts@)));
    }
    join_texts(&wrapped, sep)
}

/// Whether a text begins with the character `c`.
pub open spec fn starts_with_char(s: Seq<char>, c: char) -> bool {
    s.len() > 0 && s[0] == c
}

/// Tells whether `text` begins with the character `c`.
pub fn begins_with(text: &str, c: char) -> (r: bool)
    ensures
        r == starts_with_char(text@, c),
{
    let mut it = text.chars();
    match it.next() {
        Some(first) => first == c,
        None => false,
    }
}

} // verus!
