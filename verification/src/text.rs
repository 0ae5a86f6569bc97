//! Plain text: trimming, decimal numbers, padding and joining.
//!
//! Text is modelled as the sequence of its characters, `Seq<char>`, which is
//! what the view of a `&str` or a `String` is.

use vstd::prelude::*;
use vstd::string::*;

verus! {

/// `String::push` appends the given character at the end of the string.
pub assume_specification[ String::push ](text: &mut String, character: char)
    ensures
        final(text)@ == old(text)@.push(character),
;

/// The text of an error beside the value of a success.
pub open spec fn outcome_view<T>(outcome: Result<T, String>) -> Result<T, Seq<char>> {
    match outcome {
        Ok(value) => Ok(value),
        Err(message) => Err(message@),
    }
}

/// The text inside an optional string.
pub open spec fn option_view(text: Option<String>) -> Option<Seq<char>> {
    match text {
        Some(text) => Some(text@),
        None => None,
    }
}

/// The texts of a list of strings.
pub open spec fn texts(list: Seq<String>) -> Seq<Seq<char>> {
    Seq::new(list.len(), |i: int| list[i]@)
}

/// Whether `text` ends with `suffix`.
pub open spec fn ends_with(text: Seq<char>, suffix: Seq<char>) -> bool {
    &&& text.len() >= suffix.len()
    &&& text.skip(text.len() - suffix.len()) == suffix
}

/// Whether some text has another one in it.
#[verifier::opaque]
pub open spec fn mentions(text: Seq<char>, part: Seq<char>) -> bool {
    exists|from: int|
        0 <= from <= text.len() - part.len() && #[trigger] text.subrange(
            from,
            from + part.len(),
        ) == part
}

/// The characters of `text`, in order.
pub fn chars_of(text: &str) -> (chars: Vec<char>)
    ensures
        chars@ == text@,
{
    let mut chars: Vec<char> = Vec::new();
    for character in it: text.chars()
        invariant
            it.seq() == text@,
            chars@ == text@.take(it.index()),
    {
        proof {
            assert(text@.take(it.index() + 1) =~= text@.take(it.index()).push(
                text@[it.index()],
            ));
        }
        chars.push(character);
    }
    proof {
        assert(text@.take(text@.len() as int) =~= text@);
    }
    chars
}

/// The text made of the characters from `from` up to, not including, `to`.
pub fn text_between(chars: &Vec<char>, from: usize, to: usize) -> (text: String)
    requires
        from <= to <= chars@.len(),
    ensures
        text@ == chars@.subrange(from as int, to as int),
{
    let mut text = String::new();
    let mut i: usize = from;
    while i < to
        invariant
            from <= i <= to <= chars@.len(),
            text@ == chars@.subrange(from as int, i as int),
        decreases to - i,
    {
        text.push(chars[i]);
        i = i + 1;
        proof {
            assert(chars@.subrange(from as int, i as int) =~= chars@.subrange(
                from as int,
                i - 1,
            ).push(chars@[i - 1]));
        }
    }
    text
}

/// Whether two texts hold the same characters.
pub fn same_text(left: &str, right: &str) -> (same: bool)
    ensures
        same == (left@ == right@),
{
    let a = chars_of(left);
    let b = chars_of(right);
    if a.len() != b.len() {
        return false;
    }
    let mut i: usize = 0;
    while i < a.len()
        invariant
            i <= a@.len(),
            a@.len() == b@.len(),
            a@ == left@,
            b@ == right@,
            forall|j: int| 0 <= j < i ==> a@[j] == b@[j],
        decreases a@.len() - i,
    {
        if a[i] != b[i] {
            return false;
        }
        i = i + 1;
    }
    proof {
        assert(left@ =~= right@);
    }
    true
}

/// The characters with the Unicode property `White_Space`.
pub open spec fn is_white_space(c: char) -> bool {
    ||| '\u{9}' <= c <= '\u{d}'
    ||| c == ' '
    ||| c == '\u{85}'
    ||| c == '\u{a0}'
    ||| c == '\u{1680}'
    ||| '\u{2000}' <= c <= '\u{200a}'
    ||| c == '\u{2028}'
    ||| c == '\u{2029}'
    ||| c == '\u{202f}'
    ||| c == '\u{205f}'
    ||| c == '\u{3000}'
}

/// Whether `c` is white space.
pub fn white_space(c: char) -> (yes: bool)
    ensures
        yes == is_white_space(c),
{
    ('\u{9}' <= c && c <= '\u{d}') || c == ' ' || c == '\u{85}' || c == '\u{a0}' || c == '\u{1680}'
        || ('\u{2000}' <= c && c <= '\u{200a}') || c == '\u{2028}' || c == '\u{2029}' || c
        == '\u{202f}' || c == '\u{205f}' || c == '\u{3000}'
}

/// `text` without the white space it starts with.
pub open spec fn start_trimmed(text: Seq<char>) -> Seq<char>
    decreases text.len(),
{
    if text.len() > 0 && is_white_space(text[0]) {
        start_trimmed(text.drop_first())
    } else {
        text
    }
}

/// `text` without the white space it ends with.
pub open spec fn end_trimmed(text: Seq<char>) -> Seq<char>
    decreases text.len(),
{
    if text.len() > 0 && is_white_space(text.last()) {
        end_trimmed(text.drop_last())
    } else {
        text
    }
}

/// `text` without the white space around it.
pub open spec fn trimmed(text: Seq<char>) -> Seq<char> {
    end_trimmed(start_trimmed(text))
}

/// The text without the white space it ends with.
pub fn trim_end(text: &str) -> (rest: String)
    ensures
        rest@ == end_trimmed(text@),
{
    let chars = chars_of(text);
    let mut end: usize = chars.len();
    proof {
        assert(text@.take(text@.len() as int) =~= text@);
    }
    while end > 0 && white_space(chars[end - 1])
        invariant
            end <= chars@.len(),
            chars@ == text@,
            end_trimmed(text@.take(end as int)) == end_trimmed(text@),
        decreases end,
    {
        proof {
            assert(text@.take(end as int).drop_last() =~= text@.take(end - 1));
        }
        end = end - 1;
    }
    proof {
        assert(chars@.subrange(0, end as int) =~= text@.take(end as int));
    }
    text_between(&chars, 0, end)
}

/// The text without the white space around it.
pub fn trim(text: &str) -> (rest: String)
    ensures
        rest@ == trimmed(text@),
{
    let chars = chars_of(text);
    let mut start: usize = 0;
    proof {
        assert(text@.skip(0) =~= text@);
    }
    while start < chars.len() && white_space(chars[start])
        invariant
            start <= chars@.len(),
            chars@ == text@,
            start_trimmed(text@.skip(start as int)) == start_trimmed(text@),
        decreases chars@.len() - start,
    {
        proof {
            assert(text@.skip(start as int).drop_first() =~= text@.skip(start + 1));
        }
        start = start + 1;
    }
    let rest = text_between(&chars, start, chars.len());
    proof {
        assert(rest@ =~= text@.skip(start as int));
    }
    trim_end(&rest)
}

/// The decimal digit that stands for `d`.
pub open spec fn digit(d: nat) -> char {
    ('0' as nat + d) as char
}

/// `n` in decimal, without leading zeros.
pub open spec fn decimal(n: nat) -> Seq<char>
    decreases n,
{
    if n < 10 {
        seq![digit(n)]
    } else {
        decimal(n / 10).push(digit(n % 10))
    }
}

/// `n` in decimal, with a minus sign in front of it if it is negative.
pub open spec fn signed_decimal(n: int) -> Seq<char> {
    if n < 0 {
        seq!['-'] + decimal((-n) as nat)
    } else {
        decimal(n as nat)
    }
}

fn digit_of(d: u8) -> (c: char)
    requires
        d < 10,
    ensures
        c == digit(d as nat),
{
    (48u8 + d) as char
}

/// The number in decimal.
pub fn decimal_text(n: u128) -> (text: String)
    ensures
        text@ == decimal(n as nat),
    decreases n,
{
    if n < 10 {
        let mut text = String::new();
        text.push(digit_of(n as u8));
        proof {
            assert(text@ =~= decimal(n as nat));
        }
        text
    } else {
        let mut text = decimal_text(n / 10);
        text.push(digit_of((n % 10) as u8));
        text
    }
}

/// The signed number in decimal.
pub fn signed_text(n: i64) -> (text: String)
    ensures
        text@ == signed_decimal(n as int),
{
    if n < 0 {
        let mut text = String::new();
        text.push('-');
        let magnitude: u128 = (-(n as i128)) as u128;
        let digits = decimal_text(magnitude);
        text.append(&digits);
        proof {
            assert(text@ =~= signed_decimal(n as int));
        }
        text
    } else {
        decimal_text(n as u128)
    }
}

/// Whether `c` is a decimal digit.
pub open spec fn is_digit(c: char) -> bool {
    '0' <= c <= '9'
}

/// Whether `text` holds decimal digits only.
pub open spec fn all_digits(text: Seq<char>) -> bool {
    forall|i: int| 0 <= i < text.len() ==> is_digit(#[trigger] text[i])
}

/// The number that a sequence of decimal digits writes.
pub open spec fn digits_value(text: Seq<char>) -> nat
    decreases text.len(),
{
    if text.len() == 0 {
        0
    } else {
        (digits_value(text.drop_last()) * 10 + (text.last() as nat - '0' as nat)) as nat
    }
}

/// The digits behind an optional plus sign.
pub open spec fn without_plus(text: Seq<char>) -> Seq<char> {
    if text.len() > 0 && text[0] == '+' {
        text.skip(1)
    } else {
        text
    }
}

/// The number that `text` writes: an optional plus sign and at least one
/// decimal digit, nothing else, and not more than `max`.
pub open spec fn unsigned_number(text: Seq<char>, max: nat) -> Option<nat> {
    let digits = without_plus(text);
    if digits.len() > 0 && all_digits(digits) && digits_value(digits) <= max {
        Some(digits_value(digits))
    } else {
        None
    }
}

/// The number that `text` writes: an optional sign and at least one decimal
/// digit, nothing else, and within the range of an `i32`.
pub open spec fn signed_number(text: Seq<char>) -> Option<int> {
    if text.len() > 0 && text[0] == '-' {
        let digits = text.skip(1);
        if digits.len() > 0 && all_digits(digits) && digits_value(digits) <= 0x8000_0000 {
            Some(-(digits_value(digits) as int))
        } else {
            None
        }
    } else {
        match unsigned_number(text, 0x7fff_ffff) {
            Some(n) => Some(n as int),
            None => None,
        }
    }
}

/// The number that the digits from `from` on write, if there is at least one,
/// they are all decimal digits and the number is not more than `max`.
fn digits_number(chars: &Vec<char>, from: usize, max: u64) -> (number: Option<u64>)
    requires
        from <= chars@.len(),
    ensures
        ({
            let digits = chars@.skip(from as int);
            match number {
                Some(n) => digits.len() > 0 && all_digits(digits) && digits_value(digits) == n && n
                    <= max,
                None => digits.len() == 0 || !all_digits(digits) || digits_value(digits) > max,
            }
        }),
{
    let ghost digits = chars@.skip(from as int);
    if from == chars.len() {
        return None;
    }
    let mut value: u64 = 0;
    let mut too_large = false;
    let mut i: usize = from;
    while i < chars.len()
        invariant
            from <= i <= chars@.len(),
            digits == chars@.skip(from as int),
            all_digits(digits.take(i - from)),
            !too_large ==> value == digits_value(digits.take(i - from)) && value <= max,
            too_large ==> digits_value(digits.take(i - from)) > max,
        decreases chars@.len() - i,
    {
        let c = chars[i];
        proof {
            assert(digits[i - from] == c);
            assert(digits.take(i - from + 1).drop_last() =~= digits.take(i - from));
            assert(digits.take(i - from + 1).last() == c);
        }
        if c < '0' || c > '9' {
            return None;
        }
        let ghost before = digits_value(digits.take(i - from));
        let d: u64 = c as u64 - '0' as u64;
        if !too_large {
            match value.checked_mul(10) {
                Some(shifted) => match shifted.checked_add(d) {
                    Some(next) => {
                        if next > max {
                            too_large = true;
                        } else {
                            value = next;
                        }
                    },
                    None => {
                        too_large = true;
                    },
                },
                None => {
                    too_large = true;
                },
            }
        }
        proof {
            assert(digits_value(digits.take(i - from + 1)) == before * 10 + d);
            assert forall|j: int| 0 <= j < digits.take(i - from + 1).len() implies is_digit(
                #[trigger] digits.take(i - from + 1)[j],
            ) by {
                if j < i - from {
                    assert(digits.take(i - from)[j] == digits[j]);
                }
            }
        }
        i = i + 1;
    }
    proof {
        assert(digits.take(digits.len() as int) =~= digits);
    }
    if too_large {
        None
    } else {
        Some(value)
    }
}

/// Reads an unsigned number of at most `max`.
pub fn parse_unsigned(text: &str, max: u64) -> (number: Option<u64>)
    ensures
        match number {
            Some(n) => unsigned_number(text@, max as nat) == Some(n as nat),
            None => unsigned_number(text@, max as nat) is None,
        },
{
    let chars = chars_of(text);
    proof {
        assert(text@.skip(0) =~= text@);
    }
    if chars.len() > 0 && chars[0] == '+' {
        digits_number(&chars, 1, max)
    } else {
        digits_number(&chars, 0, max)
    }
}

/// Reads a signed number in the range of an `i32`.
pub fn parse_signed(text: &str) -> (number: Option<i32>)
    ensures
        match number {
            Some(n) => signed_number(text@) == Some(n as int),
            None => signed_number(text@) is None,
        },
{
    let chars = chars_of(text);
    if chars.len() > 0 && chars[0] == '-' {
        match digits_number(&chars, 1, 0x8000_0000) {
            Some(n) => Some((-(n as i64)) as i32),
            None => None,
        }
    } else {
        match parse_unsigned(text, 0x7fff_ffff) {
            Some(n) => Some(n as i32),
            None => None,
        }
    }
}

/// What `decimal` writes is read back as the same number.
pub proof fn law_decimal_reads_back(n: nat)
    ensures
        decimal(n).len() > 0,
        all_digits(decimal(n)),
        digits_value(decimal(n)) == n,
    decreases n,
{
    if n < 10 {
        assert(decimal(n).drop_last() =~= Seq::<char>::empty());
        assert(digits_value(decimal(n).drop_last()) == 0);
        assert(digits_value(decimal(n)) == digit(n) as nat - '0' as nat);
    } else {
        law_decimal_reads_back(n / 10);
        assert(decimal(n).drop_last() =~= decimal(n / 10));
        assert(decimal(n).last() == digit(n % 10));
        assert forall|i: int| 0 <= i < decimal(n).len() implies is_digit(
            #[trigger] decimal(n)[i],
        ) by {
            if i < decimal(n / 10).len() {
                assert(decimal(n)[i] == decimal(n / 10)[i]);
            }
        }
    }
}

/// `count` spaces.
pub open spec fn spaces(count: nat) -> Seq<char> {
    Seq::new(count, |i: int| ' ')
}

/// `text` with spaces behind it up to `width` characters.
pub open spec fn left_aligned(text: Seq<char>, width: nat) -> Seq<char> {
    if text.len() < width {
        text + spaces((width - text.len()) as nat)
    } else {
        text
    }
}

/// `text` with spaces before it up to `width` characters.
pub open spec fn right_aligned(text: Seq<char>, width: nat) -> Seq<char> {
    if text.len() < width {
        spaces((width - text.len()) as nat) + text
    } else {
        text
    }
}

fn push_spaces(text: &mut String, count: usize)
    ensures
        final(text)@ == old(text)@ + spaces(count as nat),
{
    let mut i: usize = 0;
    proof {
        assert(text@ =~= old(text)@ + spaces(0));
    }
    while i < count
        invariant
            i <= count,
            text@ == old(text)@ + spaces(i as nat),
        decreases count - i,
    {
        text.push(' ');
        i = i + 1;
        proof {
            assert(text@ =~= old(text)@ + spaces(i as nat));
        }
    }
}

/// Pads with spaces behind the text.
pub fn align_left(text: &str, width: usize) -> (padded: String)
    ensures
        padded@ == left_aligned(text@, width as nat),
{
    let length = text.unicode_len();
    let mut padded = text.to_string();
    if length < width {
        push_spaces(&mut padded, width - length);
    }
    padded
}

/// Pads with spaces before the text.
pub fn align_right(text: &str, width: usize) -> (padded: String)
    ensures
        padded@ == right_aligned(text@, width as nat),
{
    let length = text.unicode_len();
    let mut padded = String::new();
    if length < width {
        push_spaces(&mut padded, width - length);
    }
    padded.append(text);
    proof {
        assert(padded@ =~= right_aligned(text@, width as nat));
    }
    padded
}

/// The texts of `list` one behind the other, with `separator` between them.
pub open spec fn joined(list: Seq<Seq<char>>, separator: Seq<char>) -> Seq<char>
    decreases list.len(),
{
    if list.len() == 0 {
        Seq::empty()
    } else if list.len() == 1 {
        list[0]
    } else {
        joined(list.drop_last(), separator) + separator + list.last()
    }
}

/// Joins the texts with a separator.
pub fn join(list: &Vec<String>, separator: &str) -> (text: String)
    ensures
        text@ == joined(texts(list@), separator@),
{
    let mut text = String::new();
    let mut i: usize = 0;
    let ghost all = texts(list@);
    proof {
        assert(text@ =~= joined(all.take(0), separator@));
    }
    while i < list.len()
        invariant
            i <= list@.len(),
            all == texts(list@),
            text@ == joined(all.take(i as int), separator@),
        decreases list@.len() - i,
    {
        proof {
            assert(all.take(i + 1).drop_last() =~= all.take(i as int));
            assert(all.take(i + 1).last() == list@[i as int]@);
        }
        if i > 0 {
            text.append(separator);
        }
        text.append(&list[i]);
        i = i + 1;
        proof {
            assert(text@ =~= joined(all.take(i as int), separator@));
        }
    }
    proof {
        assert(all.take(all.len() as int) =~= all);
    }
    text
}

// ---------------------------------------------------------------------------
// Laws
// ---------------------------------------------------------------------------

/// What stands between two texts is mentioned.
pub proof fn lemma_mentions(before: Seq<char>, part: Seq<char>, after: Seq<char>)
    ensures
        mentions(before + part + after, part),
        mentions(before + part, part),
        mentions(part + after, part),
{
    reveal(mentions);
    let text = before + part + after;
    let from = before.len() as int;
    assert(text.subrange(from, from + part.len()) =~= part);
    assert((before + part).subrange(from, from + part.len()) =~= part);
    assert((part + after).subrange(0int, 0int + part.len()) =~= part);
}

/// There are twenty-five characters of white space.
pub proof fn law_white_space_is_what_unicode_says(c: char)
    ensures
        is_white_space(c) <==> seq![
            0x9int, 0xa, 0xb, 0xc, 0xd, 0x20, 0x85, 0xa0, 0x1680, 0x2000, 0x2001, 0x2002, 0x2003,
            0x2004, 0x2005, 0x2006, 0x2007, 0x2008, 0x2009, 0x200a, 0x2028, 0x2029, 0x202f, 0x205f,
            0x3000,
        ].contains(c as int),
{
    let points = seq![
        0x9int, 0xa, 0xb, 0xc, 0xd, 0x20, 0x85, 0xa0, 0x1680, 0x2000, 0x2001, 0x2002, 0x2003,
        0x2004, 0x2005, 0x2006, 0x2007, 0x2008, 0x2009, 0x200a, 0x2028, 0x2029, 0x202f, 0x205f,
        0x3000,
    ];
    let n = c as int;
    assert(points.contains(n) <==> {
        ||| 0x9 <= n <= 0xd
        ||| n == 0x20
        ||| n == 0x85
        ||| n == 0xa0
        ||| n == 0x1680
        ||| 0x2000 <= n <= 0x200a
        ||| n == 0x2028
        ||| n == 0x2029
        ||| n == 0x202f
        ||| n == 0x205f
        ||| n == 0x3000
    }) by {
        assert(points[0] == 0x9 && points[1] == 0xa && points[2] == 0xb && points[3] == 0xc
            && points[4] == 0xd && points[5] == 0x20 && points[6] == 0x85 && points[7] == 0xa0);
        assert(points[8] == 0x1680 && points[9] == 0x2000 && points[10] == 0x2001 && points[11]
            == 0x2002 && points[12] == 0x2003 && points[13] == 0x2004 && points[14] == 0x2005);
        assert(points[15] == 0x2006 && points[16] == 0x2007 && points[17] == 0x2008 && points[18]
            == 0x2009 && points[19] == 0x200a && points[20] == 0x2028 && points[21] == 0x2029);
        assert(points[22] == 0x202f && points[23] == 0x205f && points[24] == 0x3000);
    }
}

proof fn lemma_start_trimmed(text: Seq<char>)
    ensures
        start_trimmed(text).len() <= text.len(),
        start_trimmed(text) == text.skip(text.len() - start_trimmed(text).len()),
        forall|i: int|
            0 <= i < text.len() - start_trimmed(text).len() ==> is_white_space(#[trigger] text[i]),
        start_trimmed(text).len() > 0 ==> !is_white_space(start_trimmed(text)[0]),
    decreases text.len(),
{
    if text.len() > 0 && is_white_space(text[0]) {
        let rest = text.drop_first();
        lemma_start_trimmed(rest);
        let kept = start_trimmed(rest);
        assert(rest.skip(rest.len() - kept.len()) =~= text.skip(text.len() - kept.len()));
        assert forall|i: int| 0 <= i < text.len() - kept.len() implies is_white_space(
            #[trigger] text[i],
        ) by {
            if i > 0 {
                assert(rest[i - 1] == text[i]);
            }
        }
    } else {
        assert(text.skip(0) =~= text);
    }
}

/// What is trimmed off the end is white space, and what is left does not end with
/// any.
pub proof fn law_trimming_the_end_takes_white_space_only(text: Seq<char>)
    ensures
        end_trimmed(text).len() <= text.len(),
        end_trimmed(text) == text.take(end_trimmed(text).len() as int),
        forall|i: int|
            end_trimmed(text).len() <= i < text.len() ==> is_white_space(#[trigger] text[i]),
        end_trimmed(text).len() > 0 ==> !is_white_space(end_trimmed(text).last()),
    decreases text.len(),
{
    if text.len() > 0 && is_white_space(text.last()) {
        let rest = text.drop_last();
        law_trimming_the_end_takes_white_space_only(rest);
        let kept = end_trimmed(rest);
        assert(rest.take(kept.len() as int) =~= text.take(kept.len() as int));
        assert forall|i: int| kept.len() <= i < text.len() implies is_white_space(
            #[trigger] text[i],
        ) by {
            if i < rest.len() {
                assert(rest[i] == text[i]);
            }
        }
    } else {
        assert(text.take(text.len() as int) =~= text);
    }
}

/// What is trimmed off both ends is white space, and what is left neither starts
/// nor ends with any.
pub proof fn law_trimming_takes_white_space_only(text: Seq<char>)
    ensures
        exists|from: int, to: int|
            {
                &&& 0 <= from <= to <= text.len()
                &&& trimmed(text) == #[trigger] text.subrange(from, to)
                &&& forall|i: int|
                    0 <= i < from || to <= i < text.len() ==> is_white_space(#[trigger] text[i])
            },
        trimmed(text).len() > 0 ==> !is_white_space(trimmed(text)[0]) && !is_white_space(
            trimmed(text).last(),
        ),
{
    let rest = start_trimmed(text);
    lemma_start_trimmed(text);
    law_trimming_the_end_takes_white_space_only(rest);
    let kept = end_trimmed(rest);
    let from = text.len() - rest.len();
    let to = from + kept.len();
    assert(text.subrange(from, to) =~= kept);
    assert forall|i: int| 0 <= i < from || to <= i < text.len() implies is_white_space(
        #[trigger] text[i],
    ) by {
        if i >= to {
            assert(rest[i - from] == text[i]);
        }
    }
    if kept.len() > 0 {
        assert(kept[0] == rest[0]);
    }
}

/// Digits are the ten of the decimal system, and each one that is added makes the
/// number ten times as large and adds its own value.
pub proof fn law_digits_count_in_tens(text: Seq<char>, c: char)
    ensures
        is_digit(c) <==> 48 <= c as int <= 57,
        all_digits(text.push(c)) <==> all_digits(text) && 48 <= c as int <= 57,
        all_digits(Seq::empty()),
        digits_value(Seq::empty()) == 0,
        is_digit(c) ==> digits_value(text.push(c)) == 10 * digits_value(text) + (c as int - 48),
{
    let whole = text.push(c);
    assert(whole.drop_last() =~= text);
    assert(whole[text.len() as int] == c);
    if all_digits(whole) {
        assert forall|i: int| 0 <= i < text.len() implies is_digit(#[trigger] text[i]) by {
            assert(whole[i] == text[i]);
        }
    }
    if all_digits(text) && is_digit(c) {
        assert forall|i: int| 0 <= i < whole.len() implies is_digit(#[trigger] whole[i]) by {
            if i < text.len() {
                assert(whole[i] == text[i]);
            }
        }
    }
}

/// A number is written without zeros in front of it, and a negative one with a
/// minus sign.
pub proof fn law_decimal_has_no_leading_zeros(n: nat)
    ensures
        n > 0 ==> decimal(n)[0] != '0',
        decimal(0) == seq!['0'],
        signed_decimal(n as int) == decimal(n),
        n > 0 ==> signed_decimal(-(n as int)) == seq!['-'] + decimal(n),
    decreases n,
{
    if n >= 10 {
        law_decimal_has_no_leading_zeros(n / 10);
        law_decimal_reads_back(n / 10);
        assert(decimal(n)[0] == decimal(n / 10)[0]);
    }
}

/// A number that was written is read back exactly if it is not more than what is
/// allowed, with or without a plus sign before it.
pub proof fn law_written_numbers_are_read(n: nat, max: nat)
    ensures
        n <= max ==> unsigned_number(decimal(n), max) == Some(n),
        n <= max ==> unsigned_number(seq!['+'] + decimal(n), max) == Some(n),
        n > max ==> unsigned_number(decimal(n), max) is None,
        n < 0x8000_0000 ==> signed_number(signed_decimal(n as int)) == Some(n as int),
        n <= 0x8000_0000 ==> signed_number(signed_decimal(-(n as int))) == Some(-(n as int)),
        n >= 0x8000_0000 ==> signed_number(signed_decimal(n as int)) is None,
        n > 0x8000_0000 ==> signed_number(signed_decimal(-(n as int))) is None,
{
    law_decimal_reads_back(n);
    assert(is_digit(decimal(n)[0]));
    assert((seq!['+'] + decimal(n)).skip(1) =~= decimal(n));
    assert((seq!['-'] + decimal(n)).skip(1) =~= decimal(n));
}

/// A text is read as a number exactly if it is at least one digit, and nothing but
/// digits, behind a sign at most, and the number is in range; zeros in front of it
/// do not matter.
pub proof fn law_only_digits_are_read(text: Seq<char>, max: nat)
    ensures
        text.len() == 0 ==> unsigned_number(text, max) is None && signed_number(text) is None,
        text.len() > 0 && text[0] == '+' ==> {
            let digits = text.skip(1);
            let is_number = digits.len() > 0 && all_digits(digits);
            &&& unsigned_number(text, max) is Some <==> is_number && digits_value(digits) <= max
            &&& unsigned_number(text, max) matches Some(n) ==> n == digits_value(digits)
            &&& signed_number(text) is Some <==> is_number && digits_value(digits) <= 0x7fff_ffff
            &&& signed_number(text) matches Some(n) ==> n == digits_value(digits)
        },
        text.len() > 0 && text[0] == '-' ==> {
            let digits = text.skip(1);
            let is_number = digits.len() > 0 && all_digits(digits);
            &&& unsigned_number(text, max) is None
            &&& signed_number(text) is Some <==> is_number && digits_value(digits) <= 0x8000_0000
            &&& signed_number(text) matches Some(n) ==> n == -digits_value(digits)
        },
        text.len() > 0 && text[0] != '+' && text[0] != '-' ==> {
            &&& unsigned_number(text, max) is Some <==> all_digits(text) && digits_value(text)
                <= max
            &&& unsigned_number(text, max) matches Some(n) ==> n == digits_value(text)
            &&& signed_number(text) is Some <==> all_digits(text) && digits_value(text)
                <= 0x7fff_ffff
            &&& signed_number(text) matches Some(n) ==> n == digits_value(text)
        },
{
    if text.len() > 0 && text[0] == '-' {
        assert(!is_digit(text[0]));
    }
}

/// An aligned text is the text itself with spaces on one side, as wide as was
/// asked for unless the text alone is wider.
pub proof fn law_alignment_only_adds_spaces(text: Seq<char>, width: nat)
    ensures
        ({
            let left = left_aligned(text, width);
            let right = right_aligned(text, width);
            let full: nat = if text.len() < width {
                width
            } else {
                text.len()
            };
            &&& left.len() == full && right.len() == full
            &&& left.take(text.len() as int) == text
            &&& right.skip(full - text.len()) == text
            &&& forall|i: int| text.len() <= i < full ==> #[trigger] left[i] == ' '
            &&& forall|i: int| 0 <= i < full - text.len() ==> #[trigger] right[i] == ' '
        }),
{
    let left = left_aligned(text, width);
    let right = right_aligned(text, width);
    assert(left.take(text.len() as int) =~= text);
    assert(right.skip(right.len() - text.len()) =~= text);
}

/// Joined texts stand one behind the other, with the separator between any two of
/// them and nowhere else.
pub proof fn law_joining_separates(list: Seq<Seq<char>>, text: Seq<char>, separator: Seq<char>)
    ensures
        joined(Seq::empty(), separator).len() == 0,
        joined(seq![text], separator) == text,
        list.len() > 0 ==> joined(list.push(text), separator) == joined(list, separator)
            + separator + text,
{
    assert(list.push(text).drop_last() =~= list);
}

/// The text in an optional string is there exactly if the string is.
pub proof fn law_an_optional_text_is_kept(text: Option<String>)
    ensures
        text is None <==> option_view(text) is None,
        text matches Some(found) ==> option_view(text) == Some(found@),
{
}

/// The texts of a list are those of its strings, in order, and an outcome keeps its
/// value or the words of its error.
pub proof fn law_texts_are_kept_in_order(
    list: Seq<String>,
    outcome: Result<u64, String>,
)
    ensures
        texts(list).len() == list.len(),
        forall|i: int| 0 <= i < list.len() ==> #[trigger] texts(list)[i] == list[i]@,
        outcome matches Ok(value) ==> outcome_view(outcome) == Ok::<u64, Seq<char>>(value),
        outcome matches Err(message) ==> outcome_view(outcome) == Err::<u64, Seq<char>>(message@),
{
}

} // verus!
