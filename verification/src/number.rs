//! Decimal numerals: which texts are numbers, what they are worth, and how two
//! of them compare.

use crate::grammar::{Expression, Type};
use crate::text::{split, split_on, str_eq, to_chars};
use vstd::prelude::*;
use vstd::string::*;

verus! {

/// One of the characters `0` to `9`.
pub open spec fn is_digit(c: char) -> bool {
    48 <= c as u32 <= 57
}

/// What a digit character is worth.
pub open spec fn digit_of(c: char) -> int {
    c as u32 - 48
}

/// Every character is a digit.
pub open spec fn all_digits(s: Seq<char>) -> bool {
    forall|i: int| 0 <= i < s.len() ==> is_digit(#[trigger] s[i])
}

/// What a run of digits is worth, read in base ten.
pub open spec fn digits_value(s: Seq<char>) -> int
    decreases s.len(),
{
    if s.len() == 0 {
        0
    } else {
        digits_value(s.drop_last()) * 10 + digit_of(s.last())
    }
}

/// The text starts with a plus or a minus.
pub open spec fn has_sign(s: Seq<char>) -> bool {
    s.len() > 0 && (s[0] == '-' || s[0] == '+')
}

/// The text starts with a minus.
pub open spec fn negative(s: Seq<char>) -> bool {
    s.len() > 0 && s[0] == '-'
}

/// The text behind the sign, or all of it where there is none.
pub open spec fn magnitude(s: Seq<char>) -> Seq<char> {
    if has_sign(s) {
        s.subrange(1, s.len() as int)
    } else {
        s
    }
}

/// A decimal numeral: an optional sign, one or more digits, and optionally a
/// point followed by one or more digits.
pub open spec fn is_decimal(s: Seq<char>) -> bool {
    let parts = split(magnitude(s), '.');
    &&& parts.len() <= 2
    &&& forall|i: int|
        0 <= i < parts.len() ==> (#[trigger] parts[i]).len() > 0 && all_digits(parts[i])
}

/// The digits of a decimal numeral, those before the point and those behind it.
pub open spec fn digits_of(s: Seq<char>) -> Seq<char> {
    let parts = split(magnitude(s), '.');
    if parts.len() == 2 {
        parts[0] + parts[1]
    } else {
        parts[0]
    }
}

/// The number of digits behind the point.
pub open spec fn scale_of(s: Seq<char>) -> nat {
    let parts = split(magnitude(s), '.');
    if parts.len() == 2 {
        parts[1].len()
    } else {
        0
    }
}

/// The digits of a numeral read as one signed integer.
pub open spec fn units_of(s: Seq<char>) -> int {
    if negative(s) {
        -digits_value(digits_of(s))
    } else {
        digits_value(digits_of(s))
    }
}

/// The largest number of digits behind the point that a number may have.
pub const MAX_SCALE: u8 = 18;

/// A decimal number: `units` divided by ten to the power `scale`.
#[derive(Clone, Copy, Debug, PartialEq, Eq, Structural)]
pub struct Number {
    pub units: i64,
    pub scale: u8,
}

/// Ten to the power `n`.
pub open spec fn pow10(n: nat) -> int
    decreases n,
{
    if n == 0 {
        1
    } else {
        10 * pow10((n - 1) as nat)
    }
}

impl Number {
    /// This number is strictly less than the other.
    pub open spec fn below(self, other: Number) -> bool {
        self.units * pow10(other.scale as nat) < other.units * pow10(self.scale as nat)
    }

    /// The two numbers are worth the same.
    pub open spec fn same(self, other: Number) -> bool {
        self.units * pow10(other.scale as nat) == other.units * pow10(self.scale as nat)
    }
}

/// The number a text denotes: a decimal numeral with at most `MAX_SCALE` digits
/// behind the point whose digits, read as one integer, fit in 64 bits.
pub open spec fn number_of(s: Seq<char>) -> Option<Number> {
    if is_decimal(s) && scale_of(s) <= MAX_SCALE && i64::MIN <= units_of(s) <= i64::MAX {
        Some(Number { units: units_of(s) as i64, scale: scale_of(s) as u8 })
    } else {
        None
    }
}

/// The whole number a text denotes: a decimal numeral without a point that
/// fits in 64 bits.
pub open spec fn integer_of(s: Seq<char>) -> Option<i64> {
    if is_decimal(s) && scale_of(s) == 0 && i64::MIN <= units_of(s) <= i64::MAX {
        Some(units_of(s) as i64)
    } else {
        None
    }
}

/// The truth value a text denotes: `true`, `t` and `1` are true, `false`, `f`
/// and `0` are false, in lower case only.
pub open spec fn truth_of(s: Seq<char>) -> Option<bool> {
    if s == "true"@ || s == "t"@ || s == "1"@ {
        Some(true)
    } else if s == "false"@ || s == "f"@ || s == "0"@ {
        Some(false)
    } else {
        None
    }
}

/// Whether a stored text reads as a value of the type. Every text is a
/// `STRING`; an `INTEGER` is a whole number; a `FLOAT` is a number, with or
/// without a point; a `BOOLEAN` is one of the spellings of a truth value.
pub open spec fn conforms(s: Seq<char>, typed: Type) -> bool {
    match typed {
        Type::STRING => true,
        Type::INTEGER => integer_of(s) is Some,
        Type::FLOAT => number_of(s) is Some,
        Type::BOOLEAN => truth_of(s) is Some,
    }
}

/// How a stored value compares with a literal. Where both are numbers they are
/// compared as numbers. Otherwise they can only be told equal or different, as
/// texts; an ordering of them is not defined.
pub open spec fn compare(value: Seq<char>, expression: Expression, literal: Seq<char>) -> Option<
    bool,
> {
    match (number_of(value), number_of(literal)) {
        (Some(a), Some(b)) => Some(
            match expression {
                Expression::EQUALS => a.same(b),
                Expression::DIFFERS => !a.same(b),
                Expression::LESSER => a.below(b),
                Expression::GREATER => b.below(a),
                Expression::EQLESSER => !b.below(a),
                Expression::EQGREATER => !a.below(b),
            },
        ),
        _ => match expression {
            Expression::EQUALS => Some(value == literal),
            Expression::DIFFERS => Some(value != literal),
            _ => None,
        },
    }
}

/// The value of a run of digits does not shrink when digits are written behind it.
pub proof fn lemma_digits_grow(s: Seq<char>, k: int)
    requires
        all_digits(s),
        0 <= k <= s.len(),
    ensures
        0 <= digits_value(s.take(k)) <= digits_value(s),
    decreases s.len() - k,
{
    lemma_digits_nonnegative(s.take(k));
    if k == s.len() {
        assert(s.take(k) =~= s);
    } else {
        assert(s.take(k + 1).drop_last() =~= s.take(k));
        assert(is_digit(s[k]));
        assert(s.take(k + 1).last() == s[k]);
        lemma_digits_grow(s, k + 1);
    }
}

/// A run of digits is worth at least zero.
pub proof fn lemma_digits_nonnegative(s: Seq<char>)
    requires
        all_digits(s),
    ensures
        0 <= digits_value(s),
    decreases s.len(),
{
    if s.len() > 0 {
        assert(is_digit(s.last()));
        lemma_digits_nonnegative(s.drop_last());
    }
}

fn digits_only(chars: &Vec<char>) -> (r: bool)
    ensures
        r == all_digits(chars@),
{
    let mut i: usize = 0;
    while i < chars.len()
        invariant
            i <= chars.len(),
            forall|k: int| 0 <= k < i ==> is_digit(#[trigger] chars@[k]),
        decreases chars.len() - i,
    {
        let code: u32 = chars[i] as u32;
        if code < 48 || code > 57 {
            assert(!is_digit(chars@[i as int]));
            return false;
        }
        i += 1;
    }
    true
}

/// The sign and the digits of a decimal numeral, before and behind the point;
/// nothing for a text that is no decimal numeral.
fn decimal_parts(s: &str) -> (r: Option<(bool, Vec<char>, Vec<char>)>)
    ensures
        r is Some == is_decimal(s@),
        r matches Some((minus, whole, fraction)) ==> {
            &&& minus == negative(s@)
            &&& whole@ + fraction@ == digits_of(s@)
            &&& fraction@.len() == scale_of(s@)
            &&& all_digits(whole@)
            &&& all_digits(fraction@)
        },
{
    let chars = to_chars(s);
    let n: usize = chars.len();
    let signed = n > 0 && (chars[0] == '-' || chars[0] == '+');
    let minus = n > 0 && chars[0] == '-';
    let start: usize = if signed {
        1
    } else {
        0
    };
    let body = s.substring_char(start, n);
    assert(body@ =~= magnitude(s@));
    let parts = split_on(body, '.');
    if parts.len() > 2 {
        return None;
    }
    let whole = to_chars(parts[0].as_str());
    assert(parts.deep_view()[0] == whole@);
    if whole.len() == 0 || !digits_only(&whole) {
        return None;
    }
    if parts.len() == 1 {
        let fraction: Vec<char> = Vec::new();
        assert(whole@ + fraction@ =~= whole@);
        return Some((minus, whole, fraction));
    }
    let fraction = to_chars(parts[1].as_str());
    assert(parts.deep_view()[1] == fraction@);
    if fraction.len() == 0 || !digits_only(&fraction) {
        return None;
    }
    Some((minus, whole, fraction))
}

/// Two to the power 63, the largest magnitude a 64-bit signed integer can have.
pub const MAX_MAGNITUDE: u128 = 9223372036854775808;

/// Reads more digits behind a run whose value is known; nothing where the
/// value leaves the 64-bit range.
fn accumulate(start: u128, Ghost(prefix): Ghost<Seq<char>>, digits: &Vec<char>) -> (r: Option<u128>)
    requires
        start == digits_value(prefix),
        start <= MAX_MAGNITUDE,
        all_digits(prefix),
        all_digits(digits@),
    ensures
        match r {
            Some(v) => v == digits_value(prefix + digits@) && v <= MAX_MAGNITUDE,
            None => digits_value(prefix + digits@) > MAX_MAGNITUDE,
        },
{
    let ghost all = prefix + digits@;
    let mut acc: u128 = start;
    let mut i: usize = 0;
    assert(all.take(prefix.len() as int) =~= prefix);
    while i < digits.len()
        invariant
            i <= digits.len(),
            all == prefix + digits@,
            all_digits(all),
            all_digits(digits@),
            acc == digits_value(all.take(prefix.len() + i)),
            acc <= MAX_MAGNITUDE,
        decreases digits.len() - i,
    {
        let ghost upto = all.take(prefix.len() + i + 1);
        assert(upto.drop_last() =~= all.take(prefix.len() + i));
        assert(upto.last() == digits@[i as int]);
        assert(is_digit(digits@[i as int]));
        let code: u32 = digits[i] as u32;
        let next: u128 = acc * 10 + (code - 48) as u128;
        if next > MAX_MAGNITUDE {
            proof {
                lemma_digits_grow(all, prefix.len() + i + 1);
            }
            return None;
        }
        acc = next;
        i += 1;
    }
    assert(all.take(prefix.len() + digits.len()) =~= all);
    Some(acc)
}

fn signed(minus: bool, magnitude: u128) -> (r: Option<i64>)
    requires
        magnitude <= MAX_MAGNITUDE,
    ensures
        ({
            let value: int = if minus {
                -(magnitude as int)
            } else {
                magnitude as int
            };
            r == if i64::MIN <= value <= i64::MAX {
                Some(value as i64)
            } else {
                None
            }
        }),
{
    if minus {
        if magnitude == MAX_MAGNITUDE {
            Some(i64::MIN)
        } else {
            Some(-(magnitude as i64))
        }
    } else if magnitude == MAX_MAGNITUDE {
        None
    } else {
        Some(magnitude as i64)
    }
}

/// Reads a text as a number.
pub fn parse_number(s: &str) -> (r: Option<Number>)
    ensures
        r == number_of(s@),
{
    match decimal_parts(s) {
        None => None,
        Some((minus, whole, fraction)) => {
            if fraction.len() > MAX_SCALE as usize {
                return None;
            }
            proof {
                lemma_digits_nonnegative(whole@ + fraction@);
            }
            let ghost none = Seq::<char>::empty();
            assert(none + whole@ =~= whole@);
            match accumulate(0, Ghost(none), &whole) {
                None => {
                    proof {
                        lemma_digits_grow(whole@ + fraction@, whole@.len() as int);
                        assert((whole@ + fraction@).take(whole@.len() as int) =~= whole@);
                    }
                    None
                },
                Some(high) => match accumulate(high, Ghost(whole@), &fraction) {
                    None => None,
                    Some(all) => match signed(minus, all) {
                        None => None,
                        Some(units) => Some(Number { units, scale: fraction.len() as u8 }),
                    },
                },
            }
        },
    }
}

/// Reads a text as a whole number.
pub fn parse_integer(s: &str) -> (r: Option<i64>)
    ensures
        r == integer_of(s@),
{
    match decimal_parts(s) {
        None => None,
        Some((minus, whole, fraction)) => {
            if fraction.len() > 0 {
                return None;
            }
            let ghost none = Seq::<char>::empty();
            assert(none + whole@ =~= whole@);
            assert(whole@ + fraction@ =~= whole@);
            match accumulate(0, Ghost(none), &whole) {
                None => None,
                Some(all) => signed(minus, all),
            }
        },
    }
}

/// Powers of ten grow with the exponent, and the largest scale gives 10^18.
pub proof fn lemma_pow10_bounds(n: nat)
    requires
        n <= MAX_SCALE,
    ensures
        1 <= pow10(n) <= 1000000000000000000,
        pow10(MAX_SCALE as nat) == 1000000000000000000,
    decreases MAX_SCALE - n,
{
    reveal_with_fuel(pow10, 19);
    if n < MAX_SCALE {
        lemma_pow10_bounds(n + 1);
    }
}

fn power_of_ten(n: u8) -> (r: i128)
    requires
        n <= MAX_SCALE,
    ensures
        r == pow10(n as nat),
        1 <= r <= 1000000000000000000,
{
    let mut r: i128 = 1;
    let mut i: u8 = 0;
    while i < n
        invariant
            i <= n <= MAX_SCALE,
            r == pow10(i as nat),
        decreases n - i,
    {
        proof {
            lemma_pow10_bounds(i as nat);
            lemma_pow10_bounds((i + 1) as nat);
        }
        r = r * 10;
        i += 1;
    }
    proof {
        lemma_pow10_bounds(n as nat);
    }
    r
}

fn scaled(units: i64, factor: i128) -> (r: i128)
    requires
        1 <= factor <= 1000000000000000000,
    ensures
        r == units * factor,
{
    assert(-9223372036854775808 * 1000000000000000000 <= units * factor
        <= 9223372036854775808 * 1000000000000000000) by (nonlinear_arith)
        requires
            -9223372036854775808 <= units <= 9223372036854775808,
            1 <= factor <= 1000000000000000000,
    ;
    units as i128 * factor
}

impl Number {
    /// Whether this number is strictly less than the other.
    fn is_below(&self, other: &Number) -> (r: bool)
        requires
            self.scale <= MAX_SCALE,
            other.scale <= MAX_SCALE,
        ensures
            r == self.below(*other),
    {
        let left = scaled(self.units, power_of_ten(other.scale));
        let right = scaled(other.units, power_of_ten(self.scale));
        left < right
    }

    /// Whether the two numbers are worth the same.
    fn is_same(&self, other: &Number) -> (r: bool)
        requires
            self.scale <= MAX_SCALE,
            other.scale <= MAX_SCALE,
        ensures
            r == self.same(*other),
    {
        let left = scaled(self.units, power_of_ten(other.scale));
        let right = scaled(other.units, power_of_ten(self.scale));
        left == right
    }
}

/// Compares a stored value with a literal; nothing where the comparison is not
/// defined for the two.
pub fn holds(value: &str, expression: Expression, literal: &str) -> (r: Option<bool>)
    ensures
        r == compare(value@, expression, literal@),
{
    match (parse_number(value), parse_number(literal)) {
        (Some(a), Some(b)) => Some(
            match expression {
                Expression::EQUALS => a.is_same(&b),
                Expression::DIFFERS => !a.is_same(&b),
                Expression::LESSER => a.is_below(&b),
                Expression::GREATER => b.is_below(&a),
                Expression::EQLESSER => !b.is_below(&a),
                Expression::EQGREATER => !a.is_below(&b),
            },
        ),
        _ => match expression {
            Expression::EQUALS => Some(str_eq(value, literal)),
            Expression::DIFFERS => Some(!str_eq(value, literal)),
            _ => None,
        },
    }
}

/// Reads a text as a truth value.
pub fn parse_truth(s: &str) -> (r: Option<bool>)
    ensures
        r == truth_of(s@),
{
    if str_eq(s, "true") || str_eq(s, "t") || str_eq(s, "1") {
        Some(true)
    } else if str_eq(s, "false") || str_eq(s, "f") || str_eq(s, "0") {
        Some(false)
    } else {
        None
    }
}

/// Whether a stored text reads as a value of the type.
pub fn reads_as(s: &str, typed: Type) -> (r: bool)
    ensures
        r == conforms(s@, typed),
{
    match typed {
        Type::STRING => true,
        Type::INTEGER => parse_integer(s).is_some(),
        Type::FLOAT => parse_number(s).is_some(),
        Type::BOOLEAN => parse_truth(s).is_some(),
    }
}

} // verus!
