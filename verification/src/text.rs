//! Reading and writing numbers as text.

use vstd::prelude::*;
use vstd::string::StringExecFns;

verus! {

/// Whether `c` is one of the ten decimal digits.
pub open spec fn is_digit(c: char) -> bool {
    '0' <= c && c <= '9'
}

/// What a decimal digit stands for.
pub open spec fn digit_value(c: char) -> nat {
    (c as int - '0' as int) as nat
}

/// The number that a sequence of decimal digits denotes.
pub open spec fn digits_value(digits: Seq<char>) -> nat
    decreases digits.len(),
{
    if digits.len() == 0 {
        0
    } else {
        10 * digits_value(digits.drop_last()) + digit_value(digits.last())
    }
}

/// Whether every character of `text` is a decimal digit.
pub open spec fn all_digits(text: Seq<char>) -> bool {
    forall|i: int| 0 <= i < text.len() ==> is_digit(#[trigger] text[i])
}

/// `text` without the plus sign that a number may start with.
pub open spec fn without_plus(text: Seq<char>) -> Seq<char> {
    if text.len() > 0 && text[0] == '+' {
        text.drop_first()
    } else {
        text
    }
}

/// The number that `text` denotes: one or more digits, with at most one plus
/// sign in front and nothing else around them, of a value of at most `max`.
pub open spec fn parse_unsigned(text: Seq<char>, max: nat) -> Option<nat> {
    let digits = without_plus(text);
    if digits.len() > 0 && all_digits(digits) && digits_value(digits) <= max {
        Some(digits_value(digits))
    } else {
        None
    }
}

/// The digit that stands for `d`.
pub open spec fn digit_char(d: nat) -> char {
    ('0' as int + d) as char
}

/// `n` in decimal, without leading zeros.
pub open spec fn decimal(n: nat) -> Seq<char>
    decreases n,
{
    if n < 10 {
        seq![digit_char(n)]
    } else {
        decimal(n / 10).push(digit_char(n % 10))
    }
}

/// Whether `c` has the Unicode property `White_Space`.
pub open spec fn is_white_space(c: char) -> bool {
    let code = c as int;
    ||| 0x9 <= code <= 0xd
    ||| code == 0x20
    ||| code == 0x85
    ||| code == 0xa0
    ||| code == 0x1680
    ||| 0x2000 <= code <= 0x200a
    ||| code == 0x2028
    ||| code == 0x2029
    ||| code == 0x202f
    ||| code == 0x205f
    ||| code == 0x3000
}

/// `text` without the white space at its two ends.
pub open spec fn trimmed(text: Seq<char>) -> Seq<char>
    decreases text.len(),
{
    if text.len() > 0 && is_white_space(text.first()) {
        trimmed(text.drop_first())
    } else if text.len() > 0 && is_white_space(text.last()) {
        trimmed(text.drop_last())
    } else {
        text
    }
}

proof fn lemma_prefix_value(digits: Seq<char>, n: int)
    requires
        0 <= n <= digits.len(),
    ensures
        digits_value(digits.take(n)) <= digits_value(digits),
    decreases digits.len(),
{
    if n < digits.len() {
        lemma_prefix_value(digits.drop_last(), n);
        assert(digits.drop_last().take(n) =~= digits.take(n));
    } else {
        assert(digits.take(n) =~= digits);
    }
}

proof fn lemma_decimal_digits(n: nat)
    ensures
        decimal(n).len() > 0,
        all_digits(decimal(n)),
        digits_value(decimal(n)) == n,
    decreases n,
{
    if n < 10 {
        assert(decimal(n).drop_last() =~= Seq::<char>::empty());
        assert(digits_value(Seq::<char>::empty()) == 0);
    } else {
        lemma_decimal_digits(n / 10);
        assert(decimal(n).drop_last() =~= decimal(n / 10));
    }
}

/// Reading a number that was written in decimal gives the number back.
pub proof fn decimal_reads_back(n: nat, max: nat)
    requires
        n <= max,
    ensures
        parse_unsigned(decimal(n), max) == Some(n),
{
    lemma_decimal_digits(n);
}

/// A number written in decimal has no white space at its ends.
pub proof fn decimal_is_trimmed(n: nat)
    ensures
        trimmed(decimal(n)) == decimal(n),
{
    lemma_decimal_digits(n);
}

/// The characters of `text`.
pub fn chars_of(text: &str) -> (chars: Vec<char>)
    ensures
        chars@ == text@,
{
    let mut chars: Vec<char> = Vec::new();
    for c in it: text.chars()
        invariant
            it.seq() == text@,
            chars@ == text@.take(it.index()),
    {
        chars.push(c);
    }
    chars
}

/// Whether two texts are the same.
pub fn same_text(left: &str, right: &str) -> (same: bool)
    ensures
        same == (left@ == right@),
{
    let left_chars = chars_of(left);
    let right_chars = chars_of(right);
    if left_chars.len() != right_chars.len() {
        return false;
    }
    for i in 0..left_chars.len()
        invariant
            left_chars@ == left@,
            right_chars@ == right@,
            left_chars.len() == right_chars.len(),
            forall|j: int| 0 <= j < i ==> left@[j] == right@[j],
    {
        if left_chars[i] != right_chars[i] {
            return false;
        }
    }
    assert(left@ =~= right@);
    true
}

/// The part of `chars` that is left without the white space at its two ends,
/// as the index of its first character and the one behind its last.
fn trim_range(chars: &Vec<char>) -> (range: (usize, usize))
    ensures
        range.0 <= range.1 <= chars.len(),
        chars@.subrange(range.0 as int, range.1 as int) == trimmed(chars@),
{
    let mut start: usize = 0;
    let mut end: usize = chars.len();
    assert(chars@.subrange(0, end as int) =~= chars@);
    while start < end && white_space(chars[start])
        invariant
            start <= end == chars.len(),
            trimmed(chars@.subrange(start as int, end as int)) == trimmed(chars@),
        decreases end - start,
    {
        proof {
            let rest = chars@.subrange(start as int, end as int);
            assert(rest.drop_first() =~= chars@.subrange(start + 1, end as int));
        }
        start = start + 1;
    }
    while start < end && white_space(chars[end - 1])
        invariant
            start <= end <= chars.len(),
            start < end ==> !is_white_space(chars[start as int]),
            trimmed(chars@.subrange(start as int, end as int)) == trimmed(chars@),
        decreases end - start,
    {
        proof {
            let rest = chars@.subrange(start as int, end as int);
            assert(rest.drop_last() =~= chars@.subrange(start as int, end - 1));
        }
        end = end - 1;
    }
    (start, end)
}

/// Whether `c` has the Unicode property `White_Space`.
fn white_space(c: char) -> (is: bool)
    ensures
        is == is_white_space(c),
{
    let code = c as u32;
    (0x9 <= code && code <= 0xd) || code == 0x20 || code == 0x85 || code == 0xa0 || code == 0x1680
        || (0x2000 <= code && code <= 0x200a) || code == 0x2028 || code == 0x2029 || code == 0x202f
        || code == 0x205f || code == 0x3000
}

/// The number that the characters from `start` up to `end` denote.
fn parse_range(chars: &Vec<char>, start: usize, end: usize) -> (number: Option<u64>)
    requires
        start <= end <= chars.len(),
    ensures
        match number {
            Some(n) => parse_unsigned(chars@.subrange(start as int, end as int), u64::MAX as nat)
                == Some(n as nat),
            None => parse_unsigned(chars@.subrange(start as int, end as int), u64::MAX as nat)
                is None,
        },
{
    let ghost text = chars@.subrange(start as int, end as int);
    let ghost digits = without_plus(text);
    let first: usize = if start < end && chars[start] == '+' { start + 1 } else { start };
    if first == end {
        return None;
    }
    let mut value: u64 = 0;
    let mut i: usize = first;
    while i < end
        invariant
            start <= first <= i <= end <= chars.len(),
            first < end,
            digits == chars@.subrange(first as int, end as int),
            digits == without_plus(chars@.subrange(start as int, end as int)),
            all_digits(digits.take(i - first)),
            value == digits_value(digits.take(i - first)),
        decreases end - i,
    {
        let c = chars[i];
        assert(c == digits[i - first]);
        if !('0' <= c && c <= '9') {
            return None;
        }
        let digit: u64 = (c as u32 - '0' as u32) as u64;
        let ghost longer = digits.take(i - first + 1);
        proof {
            assert(longer.drop_last() =~= digits.take(i - first));
            lemma_prefix_value(digits, i - first + 1);
        }
        if value > (u64::MAX - digit) / 10 {
            return None;
        }
        value = value * 10 + digit;
        i = i + 1;
    }
    assert(digits.take(end - first) =~= digits);
    Some(value)
}

/// Reads `text` as a `u64`.
pub fn parse_u64(text: &str) -> (number: Option<u64>)
    ensures
        match number {
            Some(n) => parse_unsigned(text@, u64::MAX as nat) == Some(n as nat),
            None => parse_unsigned(text@, u64::MAX as nat) is None,
        },
{
    let chars = chars_of(text);
    assert(chars@.subrange(0, chars.len() as int) =~= chars@);
    parse_range(&chars, 0, chars.len())
}

/// Reads `text` as a `u32`.
pub fn parse_u32(text: &str) -> (number: Option<u32>)
    ensures
        match number {
            Some(n) => parse_unsigned(text@, u32::MAX as nat) == Some(n as nat),
            None => parse_unsigned(text@, u32::MAX as nat) is None,
        },
{
    match parse_u64(text) {
        Some(n) => if n <= u32::MAX as u64 {
            Some(n as u32)
        } else {
            None
        },
        None => None,
    }
}

/// Reads `text` as a `u64`, whatever white space stands around it.
pub fn parse_trimmed_u64(text: &str) -> (number: Option<u64>)
    ensures
        match number {
            Some(n) => parse_unsigned(trimmed(text@), u64::MAX as nat) == Some(n as nat),
            None => parse_unsigned(trimmed(text@), u64::MAX as nat) is None,
        },
{
    let chars = chars_of(text);
    let (start, end) = trim_range(&chars);
    parse_range(&chars, start, end)
}

/// The digit that stands for `d`.
fn digit_text(d: u64) -> (text: &'static str)
    requires
        d < 10,
    ensures
        text@ == seq![digit_char(d as nat)],
{
    proof {
        reveal_strlit("0");
        reveal_strlit("1");
        reveal_strlit("2");
        reveal_strlit("3");
        reveal_strlit("4");
        reveal_strlit("5");
        reveal_strlit("6");
        reveal_strlit("7");
        reveal_strlit("8");
        reveal_strlit("9");
    }
    let text = match d {
        0 => "0",
        1 => "1",
        2 => "2",
        3 => "3",
        4 => "4",
        5 => "5",
        6 => "6",
        7 => "7",
        8 => "8",
        _ => "9",
    };
    text
}

/// Writes `n` in decimal.
pub fn format_u64(n: u64) -> (text: String)
    ensures
        text@ == decimal(n as nat),
    decreases n,
{
    if n < 10 {
        digit_text(n).to_owned()
    } else {
        let mut text = format_u64(n / 10);
        text.append(digit_text(n % 10));
        text
    }
}

/// What the `Debug` format of std writes for a `str` of these characters: the
/// text in quotes, with some characters escaped.
pub uninterp spec fn debug_text(text: Seq<char>) -> Seq<char>;

/// Calls `format!` of std with the `Debug` format on one `str`, and claims of the
/// result that it is `debug_text` of the argument.
#[verifier::external_body]
pub(crate) fn quoted(text: &str) -> (quote: String)
    ensures
        quote@ == debug_text(text@),
{
    format!("{:?}", text)
}

/// White space is what Unicode calls so.
pub proof fn white_space_is_unicodes(c: char)
    ensures
        is_white_space(c) <==> seq![
            0x9int,
            0xa,
            0xb,
            0xc,
            0xd,
            0x20,
            0x85,
            0xa0,
            0x1680,
            0x2000,
            0x2001,
            0x2002,
            0x2003,
            0x2004,
            0x2005,
            0x2006,
            0x2007,
            0x2008,
            0x2009,
            0x200a,
            0x2028,
            0x2029,
            0x202f,
            0x205f,
            0x3000,
        ].contains(c as int),
{
    let codes = seq![
        0x9int,
        0xa,
        0xb,
        0xc,
        0xd,
        0x20,
        0x85,
        0xa0,
        0x1680,
        0x2000,
        0x2001,
        0x2002,
        0x2003,
        0x2004,
        0x2005,
        0x2006,
        0x2007,
        0x2008,
        0x2009,
        0x200a,
        0x2028,
        0x2029,
        0x202f,
        0x205f,
        0x3000,
    ];
    let code = c as int;
    if is_white_space(c) {
        let i = if 0x9 <= code <= 0xd {
            code - 0x9
        } else if code == 0x20 {
            5
        } else if code == 0x85 {
            6
        } else if code == 0xa0 {
            7
        } else if code == 0x1680 {
            8
        } else if 0x2000 <= code <= 0x200a {
            9 + (code - 0x2000)
        } else if code == 0x2028 {
            20
        } else if code == 0x2029 {
            21
        } else if code == 0x202f {
            22
        } else if code == 0x205f {
            23
        } else {
            24
        };
        assert(codes[i] == code);
    }
}

/// Trimming takes white space from the two ends of a text and nothing else: what is
/// left is the part from the first character that is not white space to the last one.
pub proof fn trimming_takes_white_space_only(text: Seq<char>) -> (range: (int, int))
    ensures
        0 <= range.0 <= range.1 <= text.len(),
        trimmed(text) == text.subrange(range.0, range.1),
        forall|i: int| 0 <= i < range.0 ==> is_white_space(#[trigger] text[i]),
        forall|i: int| range.1 <= i < text.len() ==> is_white_space(#[trigger] text[i]),
        range.0 < range.1 ==> !is_white_space(text[range.0]) && !is_white_space(text[range.1 - 1]),
    decreases text.len(),
{
    if text.len() > 0 && is_white_space(text.first()) {
        let rest = text.drop_first();
        let (start, end) = trimming_takes_white_space_only(rest);
        assert(rest.subrange(start, end) =~= text.subrange(start + 1, end + 1));
        assert forall|i: int| 0 <= i < start + 1 implies is_white_space(#[trigger] text[i]) by {
            assert(i > 0 ==> rest[i - 1] == text[i]);
        }
        assert forall|i: int| end + 1 <= i < text.len() implies is_white_space(
            #[trigger] text[i],
        ) by {
            assert(rest[i - 1] == text[i]);
        }
        (start + 1, end + 1)
    } else if text.len() > 0 && is_white_space(text.last()) {
        let rest = text.drop_last();
        let (start, end) = trimming_takes_white_space_only(rest);
        assert(rest.subrange(start, end) =~= text.subrange(start, end));
        assert forall|i: int| 0 <= i < start implies is_white_space(#[trigger] text[i]) by {
            assert(rest[i] == text[i]);
        }
        assert forall|i: int| end <= i < text.len() implies is_white_space(#[trigger] text[i]) by {
            assert(i < rest.len() ==> rest[i] == text[i]);
        }
        (start, end)
    } else {
        assert(text.subrange(0, text.len() as int) =~= text);
        (0, text.len() as int)
    }
}

/// One digit more behind a number that is not zero is one digit more behind its
/// decimal form; a number below ten is one digit.
pub proof fn decimal_grows_digit_by_digit(n: nat, d: nat)
    requires
        d < 10,
    ensures
        decimal(d) == seq![(48 + d) as char],
        n > 0 ==> decimal(10 * n + d) == decimal(n).push((48 + d) as char),
{
}

/// A sequence of `count` zeros.
pub open spec fn zeros(count: nat) -> Seq<char> {
    Seq::new(count, |i: int| '0')
}

/// The ways in which a number can be written: its decimal form, with zeros before it,
/// and a plus sign before these.
pub open spec fn written(n: nat, count: nat, plus: bool) -> Seq<char> {
    if plus {
        seq!['+'] + zeros(count) + decimal(n)
    } else {
        zeros(count) + decimal(n)
    }
}

proof fn lemma_leading_zeros(count: nat, digits: Seq<char>)
    ensures
        digits_value(zeros(count) + digits) == digits_value(digits),
    decreases digits.len(), count,
{
    let text = zeros(count) + digits;
    if digits.len() > 0 {
        assert(text.drop_last() =~= zeros(count) + digits.drop_last());
        lemma_leading_zeros(count, digits.drop_last());
    } else if count > 0 {
        let fewer = (count - 1) as nat;
        assert(text.drop_last() =~= zeros(fewer) + digits);
        lemma_leading_zeros(fewer, digits);
    } else {
        assert(text =~= digits);
    }
}

/// Every way to write a number is read as that number, unless it is too large.
pub proof fn written_numbers_are_read(n: nat, count: nat, plus: bool, max: nat)
    ensures
        n <= max ==> parse_unsigned(written(n, count, plus), max) == Some(n),
        n > max ==> parse_unsigned(written(n, count, plus), max) is None,
{
    let digits = zeros(count) + decimal(n);
    lemma_decimal_digits(n);
    lemma_leading_zeros(count, decimal(n));
    assert(all_digits(digits));
    let text = written(n, count, plus);
    if plus {
        assert(text.drop_first() =~= digits);
    } else {
        assert(is_digit(text[0]));
    }
}

proof fn lemma_digits_are_written(digits: Seq<char>) -> (count: nat)
    requires
        digits.len() > 0,
        all_digits(digits),
    ensures
        digits == zeros(count) + decimal(digits_value(digits)),
    decreases digits.len(),
{
    let rest = digits.drop_last();
    let d = digit_value(digits.last());
    assert(is_digit(digits[digits.len() - 1]));
    assert(digits.last() == digit_char(d));
    assert(digits =~= rest.push(digit_char(d)));
    assert(digits_value(digits) == 10 * digits_value(rest) + d);
    if rest.len() == 0 {
        assert(digits_value(rest) == 0);
        assert(digits =~= zeros(0) + seq![digit_char(d)]);
        0
    } else {
        assert forall|i: int| 0 <= i < rest.len() implies is_digit(#[trigger] rest[i]) by {
            assert(rest[i] == digits[i]);
        }
        let count = lemma_digits_are_written(rest);
        let value = digits_value(rest);
        if value == 0 {
            assert(rest =~= zeros(count + 1));
            assert(digits =~= zeros(count + 1) + seq![digit_char(d)]);
            count + 1
        } else {
            decimal_grows_digit_by_digit(value, d);
            assert(digits =~= zeros(count) + decimal(value).push(digit_char(d)));
            count
        }
    }
}

/// What is read as a number is one of the ways to write it, and it is not too large.
pub proof fn read_numbers_are_written(text: Seq<char>, max: nat)
    ensures
        parse_unsigned(text, max) matches Some(n) ==> n <= max && exists|count: nat, plus: bool|
            text == #[trigger] written(n, count, plus),
{
    if let Some(n) = parse_unsigned(text, max) {
        let digits = without_plus(text);
        let count = lemma_digits_are_written(digits);
        let plus = text[0] == '+';
        if plus {
            assert(text =~= seq!['+'] + digits);
            assert(text =~= written(n, count, true));
        }
        assert(text == written(n, count, plus));
    }
}

} // verus!
