//! The shapes that validated values must have.

use crate::grammar::Format;
use crate::number::{digit_of, is_digit};
use crate::text::{free_of, split, split_on, to_chars};
use vstd::prelude::*;
use vstd::string::*;

verus! {

/// A letter of the basic Latin alphabet, in either case.
pub open spec fn is_letter(c: char) -> bool {
    65 <= c as u32 <= 90 || 97 <= c as u32 <= 122
}

/// A hexadecimal digit, in either case.
pub open spec fn is_hex(c: char) -> bool {
    is_digit(c) || 65 <= c as u32 <= 70 || 97 <= c as u32 <= 102
}

/// The positions `from` up to `to` hold digits.
pub open spec fn digits_at(s: Seq<char>, from: int, to: int) -> bool {
    forall|i: int| from <= i < to ==> is_digit(#[trigger] s[i])
}

/// What the two digits at `at` and behind it are worth.
pub open spec fn two_digits(s: Seq<char>, at: int) -> int {
    digit_of(s[at]) * 10 + digit_of(s[at + 1])
}

/// A date: `YYYY-MM-DD` with a month from 01 to 12 and a day from 01 to 31.
pub open spec fn is_date(s: Seq<char>) -> bool {
    &&& s.len() == 10
    &&& digits_at(s, 0, 4)
    &&& s[4] == '-'
    &&& digits_at(s, 5, 7)
    &&& s[7] == '-'
    &&& digits_at(s, 8, 10)
    &&& 1 <= two_digits(s, 5) <= 12
    &&& 1 <= two_digits(s, 8) <= 31
}

/// A time of day: `HH:MM:SS` with an hour up to 23, minutes and seconds up to 59.
pub open spec fn is_time(s: Seq<char>) -> bool {
    &&& s.len() == 8
    &&& digits_at(s, 0, 2)
    &&& s[2] == ':'
    &&& digits_at(s, 3, 5)
    &&& s[5] == ':'
    &&& digits_at(s, 6, 8)
    &&& two_digits(s, 0) <= 23
    &&& two_digits(s, 3) <= 59
    &&& two_digits(s, 6) <= 59
}

/// A date and a time with a `T` or a space between them.
pub open spec fn is_datetime(s: Seq<char>) -> bool {
    &&& s.len() == 19
    &&& is_date(s.subrange(0, 10))
    &&& (s[10] == 'T' || s[10] == ' ')
    &&& is_time(s.subrange(11, 19))
}

/// Whether position `i` of a UUID holds a hyphen.
pub open spec fn uuid_hyphen(i: int) -> bool {
    i == 8 || i == 13 || i == 18 || i == 23
}

/// A UUID: 36 characters, hexadecimal digits in groups of 8, 4, 4, 4 and 12
/// with hyphens between the groups.
pub open spec fn is_uuid(s: Seq<char>) -> bool {
    &&& s.len() == 36
    &&& forall|i: int|
        0 <= i < 36 ==> if uuid_hyphen(i) {
            #[trigger] s[i] == '-'
        } else {
            is_hex(s[i])
        }
}

/// Every piece holds at least one character.
pub open spec fn none_empty(parts: Seq<Seq<char>>) -> bool {
    forall|i: int| 0 <= i < parts.len() ==> (#[trigger] parts[i]).len() > 0
}

/// An e-mail address: no space, exactly one `@`, something before it, and
/// behind it two or more labels with dots between them, none of them empty.
pub open spec fn is_email(s: Seq<char>) -> bool {
    let parts = split(s, '@');
    &&& free_of(s, ' ')
    &&& parts.len() == 2
    &&& parts[0].len() > 0
    &&& split(parts[1], '.').len() >= 2
    &&& none_empty(split(parts[1], '.'))
}

/// A character that may follow the first letter of a URI scheme.
pub open spec fn is_scheme_char(c: char) -> bool {
    is_letter(c) || is_digit(c) || c == '+' || c == '-' || c == '.'
}

/// A URI scheme: a letter followed by letters, digits, `+`, `-` or `.`.
pub open spec fn is_scheme(s: Seq<char>) -> bool {
    &&& s.len() > 0
    &&& is_letter(s[0])
    &&& forall|i: int| 0 <= i < s.len() ==> is_scheme_char(#[trigger] s[i])
}

/// A URI: no space, a scheme, a colon, and something behind the colon.
pub open spec fn is_uri(s: Seq<char>) -> bool {
    let parts = split(s, ':');
    &&& free_of(s, ' ')
    &&& parts.len() >= 2
    &&& is_scheme(parts[0])
    &&& s.len() > parts[0].len() + 1
}

/// Whether a value has the shape of the format.
pub open spec fn fits(format: Format, s: Seq<char>) -> bool {
    match format {
        Format::URI => is_uri(s),
        Format::UUID => is_uuid(s),
        Format::DATE => is_date(s),
        Format::TIME => is_time(s),
        Format::EMAIL => is_email(s),
        Format::DATETIME => is_datetime(s),
    }
}

fn digit_here(chars: &Vec<char>, at: usize) -> (r: bool)
    requires
        at < chars.len(),
    ensures
        r == is_digit(chars@[at as int]),
{
    let code: u32 = chars[at] as u32;
    48 <= code && code <= 57
}

fn pair_here(chars: &Vec<char>, at: usize) -> (r: Option<u32>)
    requires
        at + 1 < chars.len(),
    ensures
        r is Some == digits_at(chars@, at as int, at + 2),
        r matches Some(v) ==> v == two_digits(chars@, at as int),
{
    if digit_here(chars, at) && digit_here(chars, at + 1) {
        let high: u32 = chars[at] as u32 - 48;
        let low: u32 = chars[at + 1] as u32 - 48;
        Some(high * 10 + low)
    } else {
        proof {
            if digits_at(chars@, at as int, at + 2) {
                assert(is_digit(chars@[at as int]));
                assert(is_digit(chars@[at + 1]));
            }
        }
        None
    }
}

fn date_here(chars: &Vec<char>, from: usize) -> (r: bool)
    requires
        from + 10 <= chars.len(),
    ensures
        r == is_date(chars@.subrange(from as int, from + 10)),
{
    let ghost s = chars@.subrange(from as int, from + 10);
    assert(forall|i: int| 0 <= i < 10 ==> s[i] == chars@[from + i]);
    let century = pair_here(chars, from);
    let year = pair_here(chars, from + 2);
    let month = pair_here(chars, from + 5);
    let day = pair_here(chars, from + 8);
    proof {
        assert(digits_at(s, 0, 4) <==> digits_at(chars@, from as int, from + 2) && digits_at(
            chars@,
            from + 2,
            from + 4,
        )) by {
            if digits_at(s, 0, 4) {
                assert forall|i: int| from <= i < from + 4 implies is_digit(
                    #[trigger] chars@[i],
                ) by {
                    assert(is_digit(s[i - from]));
                }
            }
            if digits_at(chars@, from as int, from + 2) && digits_at(chars@, from + 2, from + 4) {
                assert forall|i: int| 0 <= i < 4 implies is_digit(#[trigger] s[i]) by {
                    assert(is_digit(chars@[from + i]));
                }
            }
        }
        lemma_digits_shift(chars@, from as int, 10, 5, 7);
        lemma_digits_shift(chars@, from as int, 10, 8, 10);
    }
    match (century, year, month, day) {
        (Some(_), Some(_), Some(m), Some(d)) => chars[from + 4] == '-' && chars[from + 7] == '-'
            && 1 <= m && m <= 12 && 1 <= d && d <= 31,
        _ => false,
    }
}

/// Digits at positions of a window are digits at the shifted positions of the
/// text around it.
proof fn lemma_digits_shift(s: Seq<char>, from: int, width: int, lo: int, hi: int)
    requires
        0 <= from,
        from + width <= s.len(),
        0 <= lo <= hi <= width,
    ensures
        digits_at(s.subrange(from, from + width), lo, hi) == digits_at(s, from + lo, from + hi),
{
    let w = s.subrange(from, from + width);
    if digits_at(w, lo, hi) {
        assert forall|i: int| from + lo <= i < from + hi implies is_digit(#[trigger] s[i]) by {
            assert(is_digit(w[i - from]));
        }
    }
    if digits_at(s, from + lo, from + hi) {
        assert forall|i: int| lo <= i < hi implies is_digit(#[trigger] w[i]) by {
            assert(is_digit(s[from + i]));
        }
    }
}

fn time_here(chars: &Vec<char>, from: usize) -> (r: bool)
    requires
        from + 8 <= chars.len(),
    ensures
        r == is_time(chars@.subrange(from as int, from + 8)),
{
    let ghost s = chars@.subrange(from as int, from + 8);
    assert(forall|i: int| 0 <= i < 8 ==> s[i] == chars@[from + i]);
    let hour = pair_here(chars, from);
    let minute = pair_here(chars, from + 3);
    let second = pair_here(chars, from + 6);
    proof {
        lemma_digits_shift(chars@, from as int, 8, 0, 2);
        lemma_digits_shift(chars@, from as int, 8, 3, 5);
        lemma_digits_shift(chars@, from as int, 8, 6, 8);
    }
    match (hour, minute, second) {
        (Some(h), Some(m), Some(sec)) => chars[from + 2] == ':' && chars[from + 5] == ':' && h
            <= 23 && m <= 59 && sec <= 59,
        _ => false,
    }
}

fn uuid_here(chars: &Vec<char>) -> (r: bool)
    ensures
        r == is_uuid(chars@),
{
    if chars.len() != 36 {
        return false;
    }
    let mut i: usize = 0;
    while i < 36
        invariant
            i <= 36,
            chars.len() == 36,
            forall|k: int|
                0 <= k < i ==> if uuid_hyphen(k) {
                    #[trigger] chars@[k] == '-'
                } else {
                    is_hex(chars@[k])
                },
        decreases 36 - i,
    {
        let code: u32 = chars[i] as u32;
        if i == 8 || i == 13 || i == 18 || i == 23 {
            if chars[i] != '-' {
                assert(uuid_hyphen(i as int) && chars@[i as int] != '-');
                return false;
            }
        } else {
            let hex = (48 <= code && code <= 57) || (65 <= code && code <= 70) || (97 <= code
                && code <= 102);
            if !hex {
                assert(!uuid_hyphen(i as int) && !is_hex(chars@[i as int]));
                return false;
            }
        }
        i += 1;
    }
    true
}

fn spaceless(chars: &Vec<char>) -> (r: bool)
    ensures
        r == free_of(chars@, ' '),
{
    let mut i: usize = 0;
    while i < chars.len()
        invariant
            i <= chars.len(),
            forall|k: int| 0 <= k < i ==> chars@[k] != ' ',
        decreases chars.len() - i,
    {
        if chars[i] == ' ' {
            return false;
        }
        i += 1;
    }
    true
}

fn all_filled(parts: &Vec<String>) -> (r: bool)
    ensures
        r == none_empty(parts.deep_view()),
{
    let mut i: usize = 0;
    while i < parts.len()
        invariant
            i <= parts.len(),
            forall|k: int| 0 <= k < i ==> (#[trigger] parts.deep_view()[k]).len() > 0,
        decreases parts.len() - i,
    {
        if parts[i].as_str().unicode_len() == 0 {
            assert(parts.deep_view()[i as int].len() == 0);
            return false;
        }
        i += 1;
    }
    true
}

fn email_here(s: &str) -> (r: bool)
    ensures
        r == is_email(s@),
{
    let chars = to_chars(s);
    if !spaceless(&chars) {
        return false;
    }
    let parts = split_on(s, '@');
    if parts.len() != 2 {
        return false;
    }
    assert(parts.deep_view()[0] == parts[0]@);
    assert(parts.deep_view()[1] == parts[1]@);
    if parts[0].as_str().unicode_len() == 0 {
        return false;
    }
    let labels = split_on(parts[1].as_str(), '.');
    labels.len() >= 2 && all_filled(&labels)
}

fn scheme_here(chars: &Vec<char>) -> (r: bool)
    ensures
        r == is_scheme(chars@),
{
    if chars.len() == 0 {
        return false;
    }
    let first: u32 = chars[0] as u32;
    if !((65 <= first && first <= 90) || (97 <= first && first <= 122)) {
        return false;
    }
    let mut i: usize = 0;
    while i < chars.len()
        invariant
            i <= chars.len(),
            forall|k: int| 0 <= k < i ==> is_scheme_char(#[trigger] chars@[k]),
        decreases chars.len() - i,
    {
        let code: u32 = chars[i] as u32;
        let fits = (65 <= code && code <= 90) || (97 <= code && code <= 122) || (48 <= code
            && code <= 57) || chars[i] == '+' || chars[i] == '-' || chars[i] == '.';
        if !fits {
            assert(!is_scheme_char(chars@[i as int]));
            return false;
        }
        i += 1;
    }
    true
}

fn uri_here(s: &str) -> (r: bool)
    ensures
        r == is_uri(s@),
{
    let chars = to_chars(s);
    if !spaceless(&chars) {
        return false;
    }
    let parts = split_on(s, ':');
    if parts.len() < 2 {
        return false;
    }
    assert(parts.deep_view()[0] == parts[0]@);
    let scheme = to_chars(parts[0].as_str());
    if !scheme_here(&scheme) {
        return false;
    }
    chars.len() - 1 > scheme.len()
}

/// Whether a value has the shape of the format.
pub fn check(format: Format, value: &str) -> (r: bool)
    ensures
        r == fits(format, value@),
{
    match format {
        Format::URI => uri_here(value),
        Format::UUID => {
            let chars = to_chars(value);
            uuid_here(&chars)
        },
        Format::DATE => {
            let chars = to_chars(value);
            if chars.len() != 10 {
                return false;
            }
            assert(chars@.subrange(0, 10) =~= chars@);
            date_here(&chars, 0)
        },
        Format::TIME => {
            let chars = to_chars(value);
            if chars.len() != 8 {
                return false;
            }
            assert(chars@.subrange(0, 8) =~= chars@);
            time_here(&chars, 0)
        },
        Format::EMAIL => email_here(value),
        Format::DATETIME => {
            let chars = to_chars(value);
            if chars.len() != 19 {
                return false;
            }
            date_here(&chars, 0) && (chars[10] == 'T' || chars[10] == ' ') && time_here(
                &chars,
                11,
            )
        },
    }
}

} // verus!
