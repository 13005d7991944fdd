//! Text as sequences of characters: the conversions and small scans the
//! interpreter needs, each stated over `Seq<char>`.

use vstd::prelude::*;
use vstd::string::*;

verus! {

/// `String::push`: appends one character to the end of the string.
#[verifier::external_body]
fn push_char(s: &mut String, c: char)
    ensures
        final(s)@ == old(s)@.push(c),
{
    s.push(c)
}

/// The characters of `s`, in order.
pub fn chars_of(s: &str) -> (r: Vec<char>)
    ensures
        r@ == s@,
{
    let n = s.unicode_len();
    let mut out: Vec<char> = Vec::new();
    let mut i: usize = 0;
    while i < n
        invariant
            n == s@.len(),
            i <= n,
            out@ == s@.take(i as int),
        decreases n - i,
    {
        out.push(s.get_char(i));
        i += 1;
    }
    out
}

/// The string made of `chars[from..to]`.
pub fn string_of(chars: &Vec<char>, from: usize, to: usize) -> (r: String)
    requires
        from <= to <= chars.len(),
    ensures
        r@ == chars@.subrange(from as int, to as int),
{
    let mut out = String::new();
    let mut i: usize = from;
    while i < to
        invariant
            from <= i <= to <= chars.len(),
            out@ == chars@.subrange(from as int, i as int),
        decreases to - i,
    {
        push_char(&mut out, chars[i]);
        i += 1;
    }
    out
}

/// Whether `a` and `b` hold the same characters.
pub fn same_text(a: &String, b: &str) -> (r: bool)
    ensures
        r == (a@ == b@),
{
    let b_owned = String::from_str(b);
    *a == b_owned
}

/// White space: the characters that end a word of text.
pub open spec fn is_space(c: char) -> bool {
    c == ' ' || c == '\t' || c == '\n' || c == '\r' || c == '\x0B' || c == '\x0C'
}

pub fn char_is_space(c: char) -> (r: bool)
    ensures
        r == is_space(c),
{
    c == ' ' || c == '\t' || c == '\n' || c == '\r' || c == '\x0B' || c == '\x0C'
}

/// `text` without the white space at its end.
pub open spec fn trimmed_end(text: Seq<char>) -> Seq<char>
    decreases text.len(),
{
    if text.len() > 0 && is_space(text.last()) {
        trimmed_end(text.drop_last())
    } else {
        text
    }
}

/// The length of `chars` once the white space at its end is left off.
pub fn trim_end_len(chars: &Vec<char>) -> (n: usize)
    ensures
        n <= chars.len(),
        chars@.take(n as int) == trimmed_end(chars@),
{
    let mut n: usize = chars.len();
    assert(chars@.take(n as int) == chars@);
    while n > 0 && char_is_space(chars[n - 1])
        invariant
            n <= chars.len(),
            trimmed_end(chars@.take(n as int)) == trimmed_end(chars@),
        decreases n,
    {
        assert(chars@.take(n as int).drop_last() == chars@.take(n - 1));
        n -= 1;
    }
    n
}

/// `text` without the white space at its start.
pub open spec fn trimmed_start(text: Seq<char>) -> Seq<char>
    decreases text.len(),
{
    if text.len() > 0 && is_space(text[0]) {
        trimmed_start(text.skip(1))
    } else {
        text
    }
}

/// `text` without the white space at either end.
pub open spec fn trimmed(text: Seq<char>) -> Seq<char> {
    trimmed_start(trimmed_end(text))
}

/// How many characters of white space `chars[..to]` begins with.
pub fn trim_start_len(chars: &Vec<char>, to: usize) -> (n: usize)
    requires
        to <= chars.len(),
    ensures
        n <= to,
        chars@.subrange(n as int, to as int) == trimmed_start(chars@.take(to as int)),
{
    let mut n: usize = 0;
    assert(chars@.subrange(0, to as int) == chars@.take(to as int));
    while n < to && char_is_space(chars[n])
        invariant
            n <= to <= chars.len(),
            trimmed_start(chars@.subrange(n as int, to as int)) == trimmed_start(
                chars@.take(to as int),
            ),
        decreases to - n,
    {
        assert(chars@.subrange(n as int, to as int).skip(1) == chars@.subrange(
            n + 1,
            to as int,
        ));
        n += 1;
    }
    n
}

/// `text` without the white space at either end.
pub fn trim(text: &String) -> (r: String)
    ensures
        r@ == trimmed(text@),
{
    let chars = chars_of(text.as_str());
    let to = trim_end_len(&chars);
    let from = trim_start_len(&chars, to);
    string_of(&chars, from, to)
}

/// `text` without the white space at its end.
pub fn trim_end(text: &String) -> (r: String)
    ensures
        r@ == trimmed_end(text@),
{
    let chars = chars_of(text.as_str());
    let to = trim_end_len(&chars);
    assert(chars@.subrange(0, to as int) == chars@.take(to as int));
    string_of(&chars, 0, to)
}

/// The decimal digit for `d`, which is below ten.
pub open spec fn digit(d: nat) -> char {
    if d == 0 {
        '0'
    } else if d == 1 {
        '1'
    } else if d == 2 {
        '2'
    } else if d == 3 {
        '3'
    } else if d == 4 {
        '4'
    } else if d == 5 {
        '5'
    } else if d == 6 {
        '6'
    } else if d == 7 {
        '7'
    } else if d == 8 {
        '8'
    } else {
        '9'
    }
}

/// The decimal digits of `n`, most significant first, without leading zeros.
pub open spec fn digits(n: nat) -> Seq<char>
    decreases n,
{
    if n < 10 {
        seq![digit(n)]
    } else {
        digits(n / 10).push(digit(n % 10))
    }
}

/// `n` written in decimal, with a minus sign when it is negative.
pub open spec fn decimal(n: int) -> Seq<char> {
    if n < 0 {
        seq!['-'] + digits((-n) as nat)
    } else {
        digits(n as nat)
    }
}

fn digit_char(d: u64) -> (c: char)
    requires
        d < 10,
    ensures
        c == digit(d as nat),
{
    if d == 0 {
        '0'
    } else if d == 1 {
        '1'
    } else if d == 2 {
        '2'
    } else if d == 3 {
        '3'
    } else if d == 4 {
        '4'
    } else if d == 5 {
        '5'
    } else if d == 6 {
        '6'
    } else if d == 7 {
        '7'
    } else if d == 8 {
        '8'
    } else {
        '9'
    }
}

spec fn leading(n: nat) -> Seq<char> {
    if n > 0 {
        digits(n)
    } else {
        Seq::empty()
    }
}

fn push_digits(out: &mut Vec<char>, n: u64)
    ensures
        final(out)@ == old(out)@ + digits(n as nat),
{
    let start = out.len();
    let mut rest: u64 = n / 10;
    out.push(digit_char(n % 10));
    assert(digits(n as nat) == leading(rest as nat) + seq![digit((n % 10) as nat)]);
    while rest > 0
        invariant
            start == old(out)@.len(),
            start < out.len(),
            out@.take(start as int) == old(out)@,
            digits(n as nat) == leading(rest as nat) + out@.skip(start as int),
        decreases rest,
    {
        let ghost before = out@;
        out.insert(start, digit_char(rest % 10));
        assert(out@.skip(start as int) == seq![digit((rest % 10) as nat)] + before.skip(
            start as int,
        ));
        assert(digits(rest as nat) == leading((rest / 10) as nat).push(digit((rest % 10) as nat)));
        assert(out@.take(start as int) == before.take(start as int));
        rest = rest / 10;
    }
    assert(out@ == out@.take(start as int) + out@.skip(start as int));
}

/// `n` in decimal.
pub fn decimal_string(n: i64) -> (r: String)
    ensures
        r@ == decimal(n as int),
{
    let mut chars: Vec<char> = Vec::new();
    if n < 0 {
        chars.push('-');
        let mag: u64 = (-(n + 1)) as u64 + 1;
        push_digits(&mut chars, mag);
    } else {
        push_digits(&mut chars, n as u64);
    }
    let r = string_of(&chars, 0, chars.len());
    assert(chars@.subrange(0, chars.len() as int) == chars@);
    r
}

/// `n` in decimal.
pub fn count_string(n: usize) -> (r: String)
    ensures
        r@ == digits(n as nat),
{
    let mut chars: Vec<char> = Vec::new();
    push_digits(&mut chars, n as u64);
    let r = string_of(&chars, 0, chars.len());
    assert(chars@.subrange(0, chars.len() as int) == chars@);
    r
}

} // verus!
