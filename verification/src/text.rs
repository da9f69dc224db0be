//! Small pieces of text work: numbers in decimal digits, and looking for one text within
//! another.

use vstd::prelude::*;
use vstd::string::*;

verus! {

/// Appends `more` to `text`.
pub fn append_text(text: &mut String, more: &str)
    ensures
        final(text)@ == old(text)@ + more@,
{
    text.append(more);
}

/// The three pieces, one after the other.
pub fn joined_text(first: &str, second: &str, third: &str) -> (text: String)
    ensures
        text@ == first@ + second@ + third@,
{
    let mut text = String::new();
    append_text(&mut text, first);
    append_text(&mut text, second);
    append_text(&mut text, third);
    proof {
        assert(text@ =~= first@ + second@ + third@);
    }
    text
}

/// Whether the two texts are the same.
pub fn same_text(a: &str, b: &str) -> (same: bool)
    ensures
        same == (a@ == b@),
{
    a.to_owned() == b.to_owned()
}

/// The digit of a number below ten.
pub open spec fn digit(value: nat) -> char {
    if value == 0 {
        '0'
    } else if value == 1 {
        '1'
    } else if value == 2 {
        '2'
    } else if value == 3 {
        '3'
    } else if value == 4 {
        '4'
    } else if value == 5 {
        '5'
    } else if value == 6 {
        '6'
    } else if value == 7 {
        '7'
    } else if value == 8 {
        '8'
    } else {
        '9'
    }
}

/// A number in decimal digits, without leading zeros.
pub open spec fn decimal(value: nat) -> Seq<char>
    decreases value,
{
    if value < 10 {
        seq![digit(value)]
    } else {
        decimal(value / 10).push(digit(value % 10))
    }
}

/// A number in decimal digits, with zeros before it where it has fewer than `width`.
pub open spec fn padded(value: nat, width: nat) -> Seq<char> {
    let digits = decimal(value);
    if digits.len() >= width {
        digits
    } else {
        Seq::new((width - digits.len()) as nat, |i: int| '0') + digits
    }
}

/// The number that a digit stands for.
pub open spec fn digit_value(c: char) -> Option<nat> {
    if '0' <= c && c <= '9' {
        Some((c as u32 - '0' as u32) as nat)
    } else {
        None
    }
}

/// The number that decimal digits stand for; nothing where there is none, or where
/// something else stands among them.
pub open spec fn read_decimal(text: Seq<char>) -> Option<nat>
    decreases text.len(),
{
    if text.len() == 0 {
        None
    } else if text.len() == 1 {
        digit_value(text[0])
    } else {
        match (read_decimal(text.drop_last()), digit_value(text.last())) {
            (Some(front), Some(last)) => Some(front * 10 + last),
            _ => None,
        }
    }
}

/// The number that a text stands for, as one of 32 bits: digits, with a plus sign before
/// them or not.
pub open spec fn number_in(text: Seq<char>) -> Option<u32> {
    let digits = if text.len() > 0 && text[0] == '+' {
        text.skip(1)
    } else {
        text
    };
    match read_decimal(digits) {
        Some(value) => if value <= u32::MAX {
            Some(value as u32)
        } else {
            None
        },
        None => None,
    }
}

/// `part` stands in `text` from `at` on.
pub open spec fn stands_at(text: Seq<char>, part: Seq<char>, at: int) -> bool {
    0 <= at && at + part.len() <= text.len() && text.subrange(at, at + part.len()) == part
}

/// `part` stands somewhere in `text`.
pub open spec fn holds_part(text: Seq<char>, part: Seq<char>) -> bool {
    exists|at: int| stands_at(text, part, at)
}

/// What follows the last `separator`; all of it where there is none.
pub open spec fn last_part(text: Seq<char>, separator: char) -> Seq<char>
    decreases text.len(),
{
    if text.len() == 0 || text.last() == separator {
        Seq::empty()
    } else {
        last_part(text.drop_last(), separator).push(text.last())
    }
}

/// The digit of a number below ten, as a text.
fn digit_text(value: u64) -> (text: &'static str)
    requires
        value < 10,
    ensures
        text@ == seq![digit(value as nat)],
{
    proof {
        reveal_strlit("0");
        reveal_strlit("1");
        reveal_strlit("2");
        reveal_strlit("3");
        reveal_strlit("4");
        reveal_strlit("5");
        reveal_strlit("6");
        reveal_strlit("7");
        reveal_strlit("8");
        reveal_strlit("9");
        assert("0"@ =~= seq!['0']);
        assert("1"@ =~= seq!['1']);
        assert("2"@ =~= seq!['2']);
        assert("3"@ =~= seq!['3']);
        assert("4"@ =~= seq!['4']);
        assert("5"@ =~= seq!['5']);
        assert("6"@ =~= seq!['6']);
        assert("7"@ =~= seq!['7']);
        assert("8"@ =~= seq!['8']);
        assert("9"@ =~= seq!['9']);
    }
    if value == 0 {
        "0"
    } else if value == 1 {
        "1"
    } else if value == 2 {
        "2"
    } else if value == 3 {
        "3"
    } else if value == 4 {
        "4"
    } else if value == 5 {
        "5"
    } else if value == 6 {
        "6"
    } else if value == 7 {
        "7"
    } else if value == 8 {
        "8"
    } else {
        "9"
    }
}

/// Appends a number in decimal digits.
pub fn append_decimal(text: &mut String, value: u64)
    ensures
        final(text)@ == old(text)@ + decimal(value as nat),
    decreases value,
{
    let ghost before = text@;
    if value < 10 {
        append_text(text, digit_text(value));
    } else {
        append_decimal(text, value / 10);
        append_text(text, digit_text(value % 10));
        proof {
            assert(text@ =~= before + decimal(value as nat));
        }
    }
}

/// Appends a number in decimal digits, with zeros before it where it has fewer than
/// `width`.
pub fn append_padded(text: &mut String, value: u64, width: usize)
    ensures
        final(text)@ == old(text)@ + padded(value as nat, width as nat),
{
    let ghost before = text@;
    let mut number = String::new();
    append_decimal(&mut number, value);
    let digits: usize = number.as_str().unicode_len();
    let mut zeros: usize = 0;
    while digits < width && zeros < width - digits
        invariant
            digits < width ==> zeros <= width - digits,
            digits >= width ==> zeros == 0,
            text@ == before + Seq::new(zeros as nat, |i: int| '0'),
        decreases width - zeros,
    {
        append_text(text, digit_text(0));
        zeros = zeros + 1;
        proof {
            assert(text@ =~= before + Seq::new(zeros as nat, |i: int| '0'));
        }
    }
    append_text(text, number.as_str());
    proof {
        assert(text@ =~= before + padded(value as nat, width as nat));
    }
}

/// The value of a digit.
fn value_of(c: char) -> (value: Option<u64>)
    ensures
        match digit_value(c) {
            Some(v) => value == Some(v as u64),
            None => value is None,
        },
        value matches Some(v) ==> v < 10,
{
    if '0' <= c && c <= '9' {
        Some((c as u32 - '0' as u32) as u64)
    } else {
        None
    }
}

/// Reads a number of 32 bits: digits, with a plus sign before them or not.
pub fn parse_number(text: &str) -> (number: Option<u32>)
    ensures
        number == number_in(text@),
{
    let length: usize = text.unicode_len();
    let start: usize = if length > 0 && text.get_char(0) == '+' {
        1
    } else {
        0
    };
    let ghost digits = text@.skip(start as int);
    proof {
        assert(start == 0 ==> digits =~= text@);
    }
    if start == length {
        return None;
    }
    let mut at: usize = start;
    let mut value: u64 = 0;
    while at < length
        invariant
            length == text@.len(),
            start <= at <= length,
            start < length,
            digits == text@.skip(start as int),
            value <= u32::MAX,
            at == start ==> value == 0,
            at > start ==> read_decimal(digits.take(at - start)) == Some(value as nat),
            number_in(text@) == (match read_decimal(digits) {
                Some(value) => if value <= u32::MAX {
                    Some(value as u32)
                } else {
                    None
                },
                None => None,
            }),
        decreases length - at,
    {
        let ghost prefix = digits.take(at - start);
        let ghost longer = digits.take(at + 1 - start);
        proof {
            assert(longer.drop_last() =~= prefix);
            assert(longer.last() == text@[at as int]);
        }
        match value_of(text.get_char(at)) {
            None => {
                proof {
                    assert(read_decimal(longer) is None);
                    lemma_prefix_fails(digits, at + 1 - start);
                }
                return None;
            },
            Some(last) => {
                value = value * 10 + last;
            },
        }
        proof {
            assert(read_decimal(longer) == Some(value as nat));
        }
        if value > u32::MAX as u64 {
            proof {
                lemma_prefix_is_smaller(digits, at + 1 - start);
            }
            return None;
        }
        at = at + 1;
    }
    proof {
        assert(digits.take(length - start) =~= digits);
    }
    Some(value as u32)
}

/// Where a part of the digits is none, neither is the whole.
proof fn lemma_prefix_fails(text: Seq<char>, length: int)
    requires
        0 < length <= text.len(),
        read_decimal(text.take(length)) is None,
    ensures
        read_decimal(text) is None,
    decreases text.len() - length,
{
    if length < text.len() {
        assert(text.take(length + 1).drop_last() =~= text.take(length));
        lemma_prefix_fails(text, length + 1);
    } else {
        assert(text.take(length) =~= text);
    }
}

/// Digits that follow make a number no smaller.
proof fn lemma_prefix_is_smaller(text: Seq<char>, length: int)
    requires
        0 < length <= text.len(),
        read_decimal(text.take(length)) is Some,
    ensures
        read_decimal(text) matches Some(value) ==> value >= read_decimal(text.take(length))->0,
    decreases text.len() - length,
{
    if length < text.len() {
        assert(text.take(length + 1).drop_last() =~= text.take(length));
        if read_decimal(text.take(length + 1)) is Some {
            lemma_prefix_is_smaller(text, length + 1);
        } else {
            lemma_prefix_fails(text, length + 1);
        }
    } else {
        assert(text.take(length) =~= text);
    }
}

/// A number that was written in decimal digits is read back.
pub proof fn law_decimal_is_read_back(value: nat)
    ensures
        read_decimal(decimal(value)) == Some(value),
        decimal(value).len() > 0,
        decimal(value)[0] != '+',
        value <= u32::MAX ==> number_in(decimal(value)) == Some(value as u32),
    decreases value,
{
    if value >= 10 {
        law_decimal_is_read_back(value / 10);
        assert(decimal(value).drop_last() =~= decimal(value / 10));
        assert(decimal(value)[0] == decimal(value / 10)[0]);
    }
}

proof fn lemma_zeros(count: nat)
    requires
        count > 0,
    ensures
        read_decimal(Seq::new(count, |i: int| '0')) == Some(0nat),
    decreases count,
{
    let zeros = Seq::new(count, |i: int| '0');
    if count > 1 {
        lemma_zeros((count - 1) as nat);
        assert(zeros.drop_last() =~= Seq::new((count - 1) as nat, |i: int| '0'));
    }
}

proof fn lemma_zeros_before(count: nat, value: nat)
    ensures
        read_decimal(Seq::new(count, |i: int| '0') + decimal(value)) == Some(value),
    decreases value,
{
    let zeros = Seq::new(count, |i: int| '0');
    let whole = zeros + decimal(value);
    law_decimal_is_read_back(value);
    if count == 0 {
        assert(whole =~= decimal(value));
    } else if value < 10 {
        lemma_zeros(count);
        assert(whole.drop_last() =~= zeros);
    } else {
        lemma_zeros_before(count, value / 10);
        assert(whole.drop_last() =~= zeros + decimal(value / 10));
    }
}

/// A number that was written with zeros before it is read back.
pub proof fn law_padded_is_read_back(value: nat, width: nat)
    ensures
        read_decimal(padded(value, width)) == Some(value),
{
    law_decimal_is_read_back(value);
    if decimal(value).len() < width {
        lemma_zeros_before((width - decimal(value).len()) as nat, value);
    }
}

/// Whether `part` stands in `text` from `at` on.
fn stands_here(text: &str, part: &str, at: usize) -> (stands: bool)
    requires
        at + part@.len() <= text@.len(),
    ensures
        stands == stands_at(text@, part@, at as int),
{
    let total: usize = text.unicode_len();
    let length: usize = part.unicode_len();
    let mut i: usize = 0;
    while i < length
        invariant
            total == text@.len(),
            length == part@.len(),
            at + length <= total,
            i <= length,
            forall|j: int| 0 <= j < i ==> text@[at + j] == #[trigger] part@[j],
        decreases length - i,
    {
        if text.get_char(at + i) != part.get_char(i) {
            proof {
                assert(text@.subrange(at as int, at + length)[i as int] != part@[i as int]);
            }
            return false;
        }
        i = i + 1;
    }
    proof {
        assert(text@.subrange(at as int, at + length) =~= part@);
    }
    true
}

/// Whether `part` stands somewhere in `text`.
pub fn contains_text(text: &str, part: &str) -> (found: bool)
    ensures
        found == holds_part(text@, part@),
{
    let length: usize = text.unicode_len();
    let part_length: usize = part.unicode_len();
    if part_length > length {
        return false;
    }
    let mut at: usize = 0;
    while at <= length - part_length
        invariant
            length == text@.len(),
            part_length == part@.len(),
            part_length <= length,
            at <= length - part_length + 1,
            forall|i: int| 0 <= i < at ==> !stands_at(text@, part@, i),
        decreases length + 1 - at,
    {
        if stands_here(text, part, at) {
            proof {
                assert(stands_at(text@, part@, at as int));
            }
            return true;
        }
        if at == length - part_length {
            proof {
                assert(forall|i: int| !stands_at(text@, part@, i));
            }
            return false;
        }
        at = at + 1;
    }
    false
}

/// The characters that Unicode calls white space.
pub open spec fn white_space(c: char) -> bool {
    ||| '\u{9}' <= c <= '\u{d}'
    ||| c == ' '
    ||| c == '\u{85}'
    ||| c == '\u{a0}'
    ||| c == '\u{1680}'
    ||| '\u{2000}' <= c <= '\u{200a}'
    ||| c == '\u{2028}'
    ||| c == '\u{2029}'
    ||| c == '\u{202f}'
    ||| c == '\u{205f}'
    ||| c == '\u{3000}'
}

fn is_white_space(c: char) -> (is: bool)
    ensures
        is == white_space(c),
{
    ('\u{9}' <= c && c <= '\u{d}') || c == ' ' || c == '\u{85}' || c == '\u{a0}' || c == '\u{1680}'
        || ('\u{2000}' <= c && c <= '\u{200a}') || c == '\u{2028}' || c == '\u{2029}' || c
        == '\u{202f}' || c == '\u{205f}' || c == '\u{3000}'
}

/// A text without the white space at its start.
pub open spec fn without_leading(text: Seq<char>) -> Seq<char>
    decreases text.len(),
{
    if text.len() > 0 && white_space(text[0]) {
        without_leading(text.drop_first())
    } else {
        text
    }
}

/// A text without the white space at its end.
pub open spec fn without_trailing(text: Seq<char>) -> Seq<char>
    decreases text.len(),
{
    if text.len() > 0 && white_space(text.last()) {
        without_trailing(text.drop_last())
    } else {
        text
    }
}

/// A text without the white space at both ends.
pub open spec fn trimmed(text: Seq<char>) -> Seq<char> {
    without_trailing(without_leading(text))
}

/// What is left of a text without the white space at both ends.
pub fn trim_text(text: &str) -> (rest: String)
    ensures
        rest@ == trimmed(text@),
{
    let length: usize = text.unicode_len();
    let mut start: usize = 0;
    proof {
        assert(text@.skip(0) =~= text@);
    }
    while start < length && is_white_space(text.get_char(start))
        invariant
            length == text@.len(),
            start <= length,
            without_leading(text@) == without_leading(text@.skip(start as int)),
        decreases length - start,
    {
        proof {
            assert(text@.skip(start as int).drop_first() =~= text@.skip(start + 1));
        }
        start = start + 1;
    }
    let mut end: usize = length;
    proof {
        assert(without_leading(text@) == text@.skip(start as int));
        assert(text@.skip(start as int) =~= text@.subrange(start as int, end as int));
    }
    while end > start && is_white_space(text.get_char(end - 1))
        invariant
            length == text@.len(),
            start <= end <= length,
            trimmed(text@) == without_trailing(text@.subrange(start as int, end as int)),
        decreases end - start,
    {
        proof {
            assert(text@.subrange(start as int, end as int).drop_last() =~= text@.subrange(
                start as int,
                end - 1,
            ));
        }
        end = end - 1;
    }
    text.substring_char(start, end).to_owned()
}

/// What follows the last `separator`; all of it where there is none.
pub fn text_after_last(text: &str, separator: char) -> (part: String)
    ensures
        part@ == last_part(text@, separator),
{
    let length: usize = text.unicode_len();
    let mut at: usize = length;
    proof {
        assert(text@.take(length as int) =~= text@);
        assert(text@.skip(length as int) =~= Seq::<char>::empty());
    }
    while at > 0 && text.get_char(at - 1) != separator
        invariant
            length == text@.len(),
            at <= length,
            last_part(text@, separator) == last_part(text@.take(at as int), separator)
                + text@.skip(at as int),
        decreases at,
    {
        proof {
            let front = text@.take(at as int);
            assert(front.drop_last() =~= text@.take(at - 1));
            assert(last_part(text@, separator) =~= last_part(text@.take(at - 1), separator)
                + text@.skip(at - 1));
        }
        at = at - 1;
    }
    proof {
        assert(last_part(text@.take(at as int), separator) =~= Seq::<char>::empty());
        assert(text@.skip(at as int) =~= text@.subrange(at as int, length as int));
    }
    text.substring_char(at, length).to_owned()
}

/// What stands behind the last separator is the last part; a text without a separator is its own last
/// part. Whatever stands before the last separator does not matter.
pub proof fn law_last_part_stands_behind_the_separator(
    front: Seq<char>,
    back: Seq<char>,
    separator: char,
)
    requires
        forall|i: int| 0 <= i < back.len() ==> back[i] != separator,
    ensures
        last_part(front.push(separator) + back, separator) == back,
        last_part(back, separator) == back,
    decreases back.len(),
{
    let whole = front.push(separator) + back;
    if back.len() == 0 {
        assert(whole.last() == separator);
        assert(last_part(whole, separator) =~= back);
        assert(last_part(back, separator) =~= back);
    } else {
        let shorter = back.drop_last();
        law_last_part_stands_behind_the_separator(front, shorter, separator);
        assert(whole.drop_last() =~= front.push(separator) + shorter);
        assert(whole.last() == back.last());
        assert(back.last() == back[back.len() - 1]);
        assert(last_part(whole, separator) =~= back);
        assert(last_part(back, separator) =~= back);
    }
}

proof fn lemma_leading(space: Seq<char>, text: Seq<char>)
    requires
        forall|i: int| 0 <= i < space.len() ==> white_space(#[trigger] space[i]),
        text.len() > 0 ==> !white_space(text[0]),
    ensures
        without_leading(space + text) == text,
    decreases space.len(),
{
    if space.len() == 0 {
        assert(space + text =~= text);
    } else {
        assert(white_space(space[0]));
        assert((space + text)[0] == space[0]);
        assert((space + text).drop_first() =~= space.drop_first() + text);
        assert forall|i: int| 0 <= i < space.drop_first().len() implies white_space(
            #[trigger] space.drop_first()[i],
        ) by {
            assert(white_space(space[i + 1]));
        }
        lemma_leading(space.drop_first(), text);
    }
}

proof fn lemma_trailing(text: Seq<char>, space: Seq<char>)
    requires
        forall|i: int| 0 <= i < space.len() ==> white_space(#[trigger] space[i]),
        text.len() > 0 ==> !white_space(text.last()),
    ensures
        without_trailing(text + space) == text,
    decreases space.len(),
{
    if space.len() == 0 {
        assert(text + space =~= text);
    } else {
        assert(white_space(space[space.len() - 1]));
        assert((text + space).last() == space.last());
        assert((text + space).drop_last() =~= text + space.drop_last());
        assert forall|i: int| 0 <= i < space.drop_last().len() implies white_space(
            #[trigger] space.drop_last()[i],
        ) by {
            assert(white_space(space[i]));
        }
        lemma_trailing(text, space.drop_last());
    }
}

/// White space at both ends is taken away, all of it and nothing else: a text that neither begins nor
/// ends with white space comes out as it is, whatever white space stands around it.
pub proof fn law_white_space_around_a_text_is_taken_away(
    before: Seq<char>,
    text: Seq<char>,
    after: Seq<char>,
)
    requires
        forall|i: int| 0 <= i < before.len() ==> white_space(#[trigger] before[i]),
        forall|i: int| 0 <= i < after.len() ==> white_space(#[trigger] after[i]),
        text.len() > 0,
        !white_space(text[0]),
        !white_space(text.last()),
    ensures
        trimmed(before + text + after) == text,
{
    assert(before + text + after =~= before + (text + after));
    assert((text + after)[0] == text[0]);
    lemma_leading(before, text + after);
    lemma_trailing(text, after);
}

proof fn lemma_only_digits(text: Seq<char>, at: int)
    requires
        read_decimal(text) is Some,
        0 <= at < text.len(),
    ensures
        '0' <= text[at] && text[at] <= '9',
    decreases text.len(),
{
    if text.len() > 1 && at < text.len() - 1 {
        lemma_only_digits(text.drop_last(), at);
        assert(text.drop_last()[at] == text[at]);
    }
}

/// One plus sign before a number does not matter, and nothing but digits may follow it; a number that
/// takes more than 32 bits is none.
pub proof fn law_numbers_are_digits_behind_a_plus(text: Seq<char>, value: nat, at: int)
    ensures
        text.len() > 0 && text[0] != '+' ==> number_in(seq!['+'] + text) == number_in(text),
        number_in(Seq::empty()) is None,
        number_in(seq!['+']) is None,
        value > u32::MAX ==> number_in(decimal(value)) is None,
        number_in(text) is Some && 0 < at < text.len() ==> '0' <= text[at] && text[at] <= '9',
        number_in(text) is Some ==> text.len() > 0 && (text[0] == '+' || ('0' <= text[0] && text[0]
            <= '9')),
{
    if text.len() > 0 && text[0] != '+' {
        assert((seq!['+'] + text).skip(1) =~= text);
    }
    assert(seq!['+'].skip(1) =~= Seq::<char>::empty());
    law_decimal_is_read_back(value);
    if number_in(text) is Some {
        if text[0] == '+' {
            if 0 < at < text.len() {
                lemma_only_digits(text.skip(1), at - 1);
                assert(text.skip(1)[at - 1] == text[at]);
            }
        } else {
            lemma_only_digits(text, 0);
            if 0 < at < text.len() {
                lemma_only_digits(text, at);
            }
        }
    }
}

/// A part that stands in a text stands in every longer text around it, every text stands in itself,
/// and no part is longer than its text.
pub proof fn law_parts_stay_parts(
    before: Seq<char>,
    text: Seq<char>,
    after: Seq<char>,
    part: Seq<char>,
)
    ensures
        holds_part(before + part + after, part),
        holds_part(text, part) ==> part.len() <= text.len(),
        holds_part(text, part) && part.len() == text.len() ==> text == part,
{
    let whole = before + part + after;
    assert(whole.subrange(before.len() as int, (before.len() + part.len()) as int) =~= part);
    assert(stands_at(whole, part, before.len() as int));
    if holds_part(text, part) && part.len() == text.len() {
        let at = choose|at: int| stands_at(text, part, at);
        assert(text.subrange(0, text.len() as int) =~= text);
    }
}

} // verus!
