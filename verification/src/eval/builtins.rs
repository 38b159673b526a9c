//! The built-in functions, and how a line of input is read as a number.

use crate::eval::table::Table;
use crate::lexer::decimal_value;
use crate::text::{chars_of, code_point, digit, digit_to_i64, is_digit};
use vstd::prelude::*;

verus! {

/// A function that the language provides.
#[derive(Clone, Copy, Debug, PartialEq, Eq, Structural)]
pub enum StdFunc {
    /// `print`: writes each argument on a line of its own, and yields 0.
    Print,
    /// `input`: reads a line and yields the integer that it holds, or 0.
    Input,
}

impl View for StdFunc {
    type V = StdFunc;

    open spec fn view(&self) -> StdFunc {
        *self
    }
}

/// The table of the built-in functions, by name.
pub open spec fn std_funcs() -> Map<Seq<char>, StdFunc> {
    Map::empty().insert("print"@, StdFunc::Print).insert("input"@, StdFunc::Input)
}

/// The table of the built-in functions: `print` and `input`.
pub fn get_std_funcs() -> (table: Table<StdFunc>)
    ensures
        table@ == std_funcs(),
{
    let mut table = Table::new();
    table.insert("print".to_owned(), StdFunc::Print);
    table.insert("input".to_owned(), StdFunc::Input);
    table
}

/// White space, as Unicode defines it.
pub open spec fn is_whitespace(c: char) -> bool {
    let n = c as nat;
    ||| 0x09 <= n <= 0x0D
    ||| n == 0x20
    ||| n == 0x85
    ||| n == 0xA0
    ||| n == 0x1680
    ||| 0x2000 <= n <= 0x200A
    ||| n == 0x2028
    ||| n == 0x2029
    ||| n == 0x202F
    ||| n == 0x205F
    ||| n == 0x3000
}

#[verifier::when_used_as_spec(is_whitespace)]
pub fn whitespace(c: char) -> (b: bool)
    ensures
        b == is_whitespace(c),
{
    let n = code_point(c);
    (0x09 <= n && n <= 0x0D) || n == 0x20 || n == 0x85 || n == 0xA0 || n == 0x1680 || (0x2000 <= n
        && n <= 0x200A) || n == 0x2028 || n == 0x2029 || n == 0x202F || n == 0x205F || n == 0x3000
}

/// The number of white-space characters of `s` from `i` on, up to the first
/// that is none.
pub open spec fn blanks_from(s: Seq<char>, i: int) -> nat
    decreases s.len() - i,
{
    if 0 <= i < s.len() && is_whitespace(s[i]) {
        1 + blanks_from(s, i + 1)
    } else {
        0
    }
}

/// The number of white-space characters of `s` before `j`, back to the first
/// that is none.
pub open spec fn blanks_before(s: Seq<char>, j: int) -> nat
    decreases j,
{
    if 0 < j <= s.len() && is_whitespace(s[j - 1]) {
        1 + blanks_before(s, j - 1)
    } else {
        0
    }
}

/// `s` without the white space at its two ends.
pub open spec fn trimmed(s: Seq<char>) -> Seq<char> {
    if blanks_from(s, 0) >= s.len() {
        Seq::empty()
    } else {
        s.subrange(blanks_from(s, 0) as int, s.len() - blanks_before(s, s.len() as int))
    }
}

/// Whether `s` holds decimal digits only.
pub open spec fn all_digits(s: Seq<char>) -> bool {
    forall|k: int| 0 <= k < s.len() ==> is_digit(#[trigger] s[k])
}

/// The integer that `t` denotes: an optional sign, `+` or `-`, and at least
/// one decimal digit, within the range of `i64`. `None` for any other text.
pub open spec fn integer_of(t: Seq<char>) -> Option<i64> {
    let signed = t.len() > 0 && (t[0] == '-' || t[0] == '+');
    let digits = if signed {
        t.subrange(1, t.len() as int)
    } else {
        t
    };
    let value = if t.len() > 0 && t[0] == '-' {
        -(decimal_value(digits) as int)
    } else {
        decimal_value(digits) as int
    };
    if digits.len() > 0 && all_digits(digits) && i64::MIN <= value <= i64::MAX {
        Some(value as i64)
    } else {
        None
    }
}

/// The number that `input` yields for a line: the integer that the line
/// holds between white space, or 0 where it holds none.
pub open spec fn input_value(line: Seq<char>) -> i64 {
    match integer_of(trimmed(line)) {
        Some(n) => n,
        None => 0,
    }
}

/// The value of a run of digits is at least the value of any of its prefixes.
pub proof fn lemma_decimal_value_grows(digits: Seq<char>, k: int)
    requires
        all_digits(digits),
        0 <= k <= digits.len(),
    ensures
        decimal_value(digits.take(k)) <= decimal_value(digits),
    decreases digits.len() - k,
{
    if k < digits.len() {
        lemma_decimal_value_grows(digits, k + 1);
        let next = digits.take(k + 1);
        assert(next.drop_last() =~= digits.take(k));
    } else {
        assert(digits.take(k) =~= digits);
    }
}

/// The bounds of `chars` without the white space at its two ends.
fn trim(chars: &[char]) -> (bounds: (usize, usize))
    ensures
        bounds.0 <= bounds.1 <= chars.len(),
        chars@.subrange(bounds.0 as int, bounds.1 as int) == trimmed(chars@),
{
    let ghost s = chars@;
    let mut from: usize = 0;
    while from < chars.len() && whitespace(chars[from])
        invariant
            from <= chars.len(),
            chars@ == s,
            from + blanks_from(s, from as int) == blanks_from(s, 0),
        decreases chars.len() - from,
    {
        from += 1;
    }
    if from == chars.len() {
        return (from, from);
    }
    let mut to: usize = chars.len();
    while whitespace(chars[to - 1])
        invariant
            from < to <= chars.len(),
            chars@ == s,
            !is_whitespace(s[from as int]),
            (chars.len() - to) + blanks_before(s, to as int) == blanks_before(s, s.len() as int),
        decreases to,
    {
        to -= 1;
    }
    (from, to)
}

/// The value of the digits `chars[from..to]`, where they are digits and
/// their value is at most 2^63.
fn magnitude(chars: &[char], from: usize, to: usize) -> (value: Option<i128>)
    requires
        from <= to <= chars.len(),
    ensures
        match value {
            Some(v) => all_digits(chars@.subrange(from as int, to as int)) && v == decimal_value(
                chars@.subrange(from as int, to as int),
            ) && v <= 0x8000_0000_0000_0000,
            None => !all_digits(chars@.subrange(from as int, to as int)) || decimal_value(
                chars@.subrange(from as int, to as int),
            ) > 0x8000_0000_0000_0000,
        },
{
    let ghost digits = chars@.subrange(from as int, to as int);
    let mut acc: i128 = 0;
    let mut j: usize = from;
    while j < to
        invariant
            from <= j <= to <= chars.len(),
            digits == chars@.subrange(from as int, to as int),
            all_digits(digits.take(j - from)),
            acc == decimal_value(digits.take(j - from)),
            acc <= 0x8000_0000_0000_0000,
        decreases to - j,
    {
        let c = chars[j];
        proof {
            let next = digits.take(j - from + 1);
            assert(next.drop_last() =~= digits.take(j - from));
        }
        if !digit(c) {
            assert(!is_digit(digits[j - from]));
            return None;
        }
        acc = acc * 10 + digit_to_i64(c) as i128;
        proof {
            let next = digits.take(j - from + 1);
            assert forall|k: int| 0 <= k < next.len() implies is_digit(#[trigger] next[k]) by {}
        }
        j += 1;
        if acc > 0x8000_0000_0000_0000 {
            proof {
                if all_digits(digits) {
                    lemma_decimal_value_grows(digits, j - from);
                }
            }
            return None;
        }
    }
    assert(digits.take(j - from) =~= digits);
    Some(acc)
}

/// Reads a line of input as a number: the integer that stands on the line,
/// white space aside, or 0 where the line holds no integer that fits `i64`.
pub fn read_integer(line: &str) -> (n: i64)
    ensures
        n == input_value(line@),
{
    let chars = chars_of(line);
    let (from, to) = trim(chars.as_slice());
    let ghost t = chars@.subrange(from as int, to as int);
    if from == to {
        return 0;
    }
    let negative = chars[from] == '-';
    let first = if negative || chars[from] == '+' {
        from + 1
    } else {
        from
    };
    assert(chars@.subrange(first as int, to as int) =~= if t[0] == '-' || t[0] == '+' {
        t.subrange(1, t.len() as int)
    } else {
        t
    });
    if first == to {
        return 0;
    }
    match magnitude(chars.as_slice(), first, to) {
        None => 0,
        Some(size) => {
            let value: i128 = if negative {
                -size
            } else {
                size
            };
            if value > i64::MAX as i128 {
                0
            } else {
                value as i64
            }
        },
    }
}

} // verus!
