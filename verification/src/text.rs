//! Text as sequences of characters: conversions between strings and character
//! vectors, searching, trimming, and unsigned decimal numbers.

use vstd::prelude::*;

verus! {

/// `String::push` of std: the string grows by the one character at its end.
pub assume_specification[ String::push ](text: &mut String, c: char)
    ensures
        final(text)@ == old(text)@.push(c),
;

/// Whether `c` is white space to std: whether it has the Unicode property
/// White_Space. Nothing more is known of it here.
pub uninterp spec fn is_whitespace(c: char) -> bool;

/// `char::is_whitespace` of std: its answer for a character is always the same,
/// and is what `is_whitespace` names.
pub assume_specification[ char::is_whitespace ](c: char) -> (answer: bool)
    ensures
        answer == is_whitespace(c),
;

/// The characters of `text`, in order.
pub fn chars_of(text: &str) -> (chars: Vec<char>)
    ensures
        chars@ == text@,
{
    let mut chars: Vec<char> = Vec::new();
    for c in it: text.chars()
        invariant
            it.seq() == text@,
            chars@ == it.seq().take(it.index() as int),
    {
        chars.push(c);
    }
    chars
}

/// The string made of `chars[from..to]`.
pub(crate) fn string_of(chars: &Vec<char>, from: usize, to: usize) -> (text: String)
    requires
        from <= to <= chars.len(),
    ensures
        text@ == chars@.subrange(from as int, to as int),
{
    let mut text = String::new();
    let mut i: usize = from;
    while i < to
        invariant
            from <= i <= to <= chars.len(),
            text@ == chars@.subrange(from as int, i as int),
        decreases to - i,
    {
        text.push(chars[i]);
        i += 1;
    }
    text
}

/// Where `c` first stands in `text`; the length of `text` where it stands
/// nowhere.
pub open spec fn first_index_of(text: Seq<char>, c: char) -> int
    decreases text.len(),
{
    if text.len() == 0 || text[0] == c {
        0
    } else {
        1 + first_index_of(text.drop_first(), c)
    }
}

/// `first_index_of` is the least index that holds `c`, and the length where
/// there is none.
pub proof fn lemma_first_index_of(text: Seq<char>, c: char)
    ensures
        0 <= first_index_of(text, c) <= text.len(),
        first_index_of(text, c) < text.len() ==> text[first_index_of(text, c)] == c,
        forall|j: int| 0 <= j < first_index_of(text, c) ==> text[j] != c,
    decreases text.len(),
{
    if text.len() == 0 || text[0] == c {
    } else {
        let rest = text.drop_first();
        lemma_first_index_of(rest, c);
        assert forall|j: int| 0 <= j < first_index_of(text, c) implies text[j] != c by {
            if j > 0 {
                assert(text[j] == rest[j - 1]);
            }
        }
    }
}

/// An index that holds `c` (or the length), with no `c` before it, is
/// `first_index_of`.
pub proof fn lemma_first_index_is(text: Seq<char>, c: char, at: int)
    requires
        0 <= at <= text.len(),
        at < text.len() ==> text[at] == c,
        forall|j: int| 0 <= j < at ==> text[j] != c,
    ensures
        first_index_of(text, c) == at,
{
    lemma_first_index_of(text, c);
}

/// The first index in `chars[from..to]` that holds `c`, counted from the start
/// of `chars`; `to` where there is none.
pub(crate) fn find_in(chars: &Vec<char>, from: usize, to: usize, c: char) -> (at: usize)
    requires
        from <= to <= chars.len(),
    ensures
        at == from + first_index_of(chars@.subrange(from as int, to as int), c),
        from <= at <= to,
        at < to ==> chars@[at as int] == c,
{
    let mut at: usize = from;
    while at < to && chars[at] != c
        invariant
            from <= at <= to <= chars.len(),
            forall|j: int| from <= j < at ==> chars@[j] != c,
        decreases to - at,
    {
        at += 1;
    }
    proof {
        lemma_first_index_is(chars@.subrange(from as int, to as int), c, at - from);
    }
    at
}

/// `text` without the white space at its start.
pub open spec fn trimmed_start(text: Seq<char>) -> Seq<char>
    decreases text.len(),
{
    if text.len() > 0 && is_whitespace(text.first()) {
        trimmed_start(text.drop_first())
    } else {
        text
    }
}

/// `text` without the white space at its end.
pub open spec fn trimmed_end(text: Seq<char>) -> Seq<char>
    decreases text.len(),
{
    if text.len() > 0 && is_whitespace(text.last()) {
        trimmed_end(text.drop_last())
    } else {
        text
    }
}

/// `text` without the white space at its start and at its end.
pub open spec fn trimmed(text: Seq<char>) -> Seq<char> {
    trimmed_end(trimmed_start(text))
}

/// The bounds of `chars` without the white space around it.
pub(crate) fn trim_bounds(chars: &Vec<char>) -> (bounds: (usize, usize))
    ensures
        bounds.0 <= bounds.1 <= chars.len(),
        chars@.subrange(bounds.0 as int, bounds.1 as int) == trimmed(chars@),
{
    let mut start: usize = 0;
    assert(chars@.skip(0) =~= chars@);
    while start < chars.len() && chars[start].is_whitespace()
        invariant
            start <= chars.len(),
            trimmed_start(chars@) == trimmed_start(chars@.skip(start as int)),
        decreases chars.len() - start,
    {
        assert(chars@.skip(start as int).drop_first() =~= chars@.skip(start + 1));
        start += 1;
    }
    let mut end: usize = chars.len();
    while end > start && chars[end - 1].is_whitespace()
        invariant
            start <= end <= chars.len(),
            trimmed(chars@) == trimmed_end(chars@.subrange(start as int, end as int)),
        decreases end - start,
    {
        assert(chars@.subrange(start as int, end as int).drop_last() =~= chars@.subrange(
            start as int,
            end - 1,
        ));
        end -= 1;
    }
    (start, end)
}

/// `text` without the white space at its start and at its end.
pub fn trim(text: &str) -> (result: String)
    ensures
        result@ == trimmed(text@),
{
    let chars = chars_of(text);
    let (start, end): (usize, usize) = trim_bounds(&chars);
    string_of(&chars, start, end)
}

/// Whether `c` is one of the ten decimal digits.
pub open spec fn is_digit(c: char) -> bool {
    '0' <= c && c <= '9'
}

/// What a decimal digit counts for.
pub open spec fn digit_value(c: char) -> int {
    c as int - '0' as int
}

/// The digit that stands for `d`, for `d` below ten.
pub open spec fn digit_char(d: int) -> char {
    ('0' as int + d) as char
}

/// The number that a sequence of decimal digits stands for.
pub open spec fn number_value(digits: Seq<char>) -> int
    decreases digits.len(),
{
    if digits.len() == 0 {
        0
    } else {
        number_value(digits.drop_last()) * 10 + digit_value(digits.last())
    }
}

/// Whether `digits` is one decimal digit or more and nothing else.
pub open spec fn is_number(digits: Seq<char>) -> bool {
    digits.len() > 0 && forall|i: int| 0 <= i < digits.len() ==> is_digit(#[trigger] digits[i])
}

/// `text` without the plus sign that may stand in front of a number.
pub open spec fn unsigned_digits(text: Seq<char>) -> Seq<char> {
    if text.len() > 0 && text.first() == '+' {
        text.drop_first()
    } else {
        text
    }
}

/// The unsigned number that `text` stands for: decimal digits, at least one,
/// with or without one plus sign in front, whose value fits the machine word.
/// Anything else stands for none.
pub open spec fn parsed_unsigned(text: Seq<char>) -> Option<usize> {
    let digits = unsigned_digits(text);
    if is_number(digits) && number_value(digits) <= usize::MAX {
        Some(number_value(digits) as usize)
    } else {
        None
    }
}

/// The value of digits is never negative, and no beginning of them is worth
/// more than the whole.
pub proof fn lemma_number_value_grows(digits: Seq<char>, k: int)
    requires
        forall|i: int| 0 <= i < digits.len() ==> is_digit(#[trigger] digits[i]),
        0 <= k <= digits.len(),
    ensures
        0 <= number_value(digits.take(k)) <= number_value(digits),
    decreases digits.len(),
{
    if k == digits.len() {
        assert(digits.take(k) =~= digits);
        if digits.len() > 0 {
            lemma_number_value_grows(digits.drop_last(), k - 1);
        }
    } else {
        lemma_number_value_grows(digits.drop_last(), k);
        assert(digits.drop_last().take(k) =~= digits.take(k));
    }
}

/// The unsigned number that `chars[from..to]` stands for.
pub(crate) fn parse_unsigned_in(chars: &Vec<char>, from: usize, to: usize) -> (value: Option<usize>)
    requires
        from <= to <= chars.len(),
    ensures
        value == parsed_unsigned(chars@.subrange(from as int, to as int)),
{
    let start: usize = if from < to && chars[from] == '+' {
        from + 1
    } else {
        from
    };
    let ghost digits = chars@.subrange(start as int, to as int);
    let mut value: usize = 0;
    let mut i: usize = start;
    while i < to
        invariant
            from <= start <= i <= to <= chars.len(),
            digits == chars@.subrange(start as int, to as int),
            digits == unsigned_digits(chars@.subrange(from as int, to as int)),
            forall|j: int| 0 <= j < i - start ==> is_digit(#[trigger] digits[j]),
            value == number_value(digits.take(i - start)),
        decreases to - i,
    {
        let c = chars[i];
        if c < '0' || c > '9' {
            assert(!is_digit(digits[i - start]));
            return None;
        }
        let d: usize = (c as u32 - '0' as u32) as usize;
        let ghost longer = digits.take(i - start + 1);
        proof {
            assert(longer.drop_last() =~= digits.take(i - start));
        }
        let next = match value.checked_mul(10) {
            Some(tens) => tens.checked_add(d),
            None => None,
        };
        match next {
            Some(sum) => {
                value = sum;
            },
            None => {
                proof {
                    if is_number(digits) {
                        lemma_number_value_grows(digits, i - start + 1);
                    }
                }
                return None;
            },
        }
        i += 1;
    }
    assert(digits.take(to - start) =~= digits);
    if start == to {
        None
    } else {
        Some(value)
    }
}

/// Reads an unsigned decimal number.
pub fn parse_unsigned(text: &str) -> (value: Option<usize>)
    ensures
        value == parsed_unsigned(text@),
{
    let chars = chars_of(text);
    assert(chars@.subrange(0, chars.len() as int) =~= chars@);
    parse_unsigned_in(&chars, 0, chars.len())
}

/// The decimal digits of `n`, without leading zeros.
pub open spec fn decimal(n: nat) -> Seq<char>
    decreases n,
{
    if n < 10 {
        seq![digit_char(n as int)]
    } else {
        decimal(n / 10).push(digit_char((n % 10) as int))
    }
}

/// Appends the decimal digits of `n` to `text`.
pub fn push_decimal(text: &mut String, n: usize)
    ensures
        final(text)@ == old(text)@ + decimal(n as nat),
    decreases n,
{
    if n >= 10 {
        push_decimal(text, n / 10);
    }
    let d: u8 = (n % 10) as u8;
    let c: char = (48u8 + d) as char;
    text.push(c);
}

} // verus!
