//! Characters and strings: the character classes of the language, and the
//! conversions between `str`, `String` and sequences of `char`.

use vstd::prelude::*;
use vstd::std_specs::iter::IteratorSpec;

verus! {

/// Assumed of the standard library: `String::push` appends the one character
/// `ch` to the end of the string, and leaves what the string held before it.
pub assume_specification[ String::push ](s: &mut String, ch: char)
    ensures
        final(s)@ == old(s)@.push(ch),
;

/// ASCII decimal digit.
pub open spec fn is_digit(c: char) -> bool {
    '0' <= c <= '9'
}

/// A character that may begin an identifier: an ASCII letter or `_`.
pub open spec fn is_ident_start(c: char) -> bool {
    ('a' <= c <= 'z') || ('A' <= c <= 'Z') || c == '_'
}

/// A character that may continue an identifier.
pub open spec fn is_ident_part(c: char) -> bool {
    is_ident_start(c) || is_digit(c)
}

/// ASCII letter.
pub open spec fn is_letter(c: char) -> bool {
    ('a' <= c <= 'z') || ('A' <= c <= 'Z')
}

/// Blank characters that separate tokens.
pub open spec fn is_space(c: char) -> bool {
    c == ' ' || c == '\n' || c == '\r' || c == '\t'
}

/// The number that a decimal digit stands for.
pub open spec fn digit_value(c: char) -> int {
    c as int - '0' as int
}

#[verifier::when_used_as_spec(is_digit)]
pub fn digit(c: char) -> (b: bool)
    ensures
        b == is_digit(c),
{
    '0' <= c && c <= '9'
}

#[verifier::when_used_as_spec(is_letter)]
pub fn letter(c: char) -> (b: bool)
    ensures
        b == is_letter(c),
{
    ('a' <= c && c <= 'z') || ('A' <= c && c <= 'Z')
}

#[verifier::when_used_as_spec(is_ident_start)]
pub fn ident_start(c: char) -> (b: bool)
    ensures
        b == is_ident_start(c),
{
    ('a' <= c && c <= 'z') || ('A' <= c && c <= 'Z') || c == '_'
}

#[verifier::when_used_as_spec(is_ident_part)]
pub fn ident_part(c: char) -> (b: bool)
    ensures
        b == is_ident_part(c),
{
    ident_start(c) || digit(c)
}

#[verifier::when_used_as_spec(is_space)]
pub fn space(c: char) -> (b: bool)
    ensures
        b == is_space(c),
{
    c == ' ' || c == '\n' || c == '\r' || c == '\t'
}

/// The value of the digit `c`, as a machine integer.
pub(crate) fn digit_to_i64(c: char) -> (d: i64)
    requires
        is_digit(c),
    ensures
        d == digit_value(c),
        0 <= d <= 9,
{
    let code: u32 = c as u32;
    (code - 48) as i64
}

/// The code point of `c`.
pub fn code_point(c: char) -> (code: u32)
    ensures
        code == c as nat,
{
    c as u32
}

/// The characters of `s`, in order.
pub fn chars_of(s: &str) -> (v: Vec<char>)
    ensures
        v@ == s@,
{
    broadcast use vstd::string::group_string_axioms;

    let mut v: Vec<char> = Vec::new();
    for c in it: s.chars()
        invariant
            it.seq() == s@,
            v@ == it.seq().take(it.index() as int),
    {
        proof {
            assert(it.seq().take(it.index() as int).push(c) =~= it.seq().take(
                it.index() as int + 1,
            ));
        }
        v.push(c);
    }
    v
}

/// The string that holds `chars[from..to]`.
pub(crate) fn string_of(chars: &[char], from: usize, to: usize) -> (s: String)
    requires
        from <= to <= chars.len(),
    ensures
        s@ == chars@.subrange(from as int, to as int),
{
    let mut s = String::new();
    let mut i: usize = from;
    while i < to
        invariant
            from <= i <= to <= chars.len(),
            s@ == chars@.subrange(from as int, i as int),
        decreases to - i,
    {
        s.push(chars[i]);
        proof {
            assert(chars@.subrange(from as int, i as int).push(chars@[i as int])
                =~= chars@.subrange(from as int, i as int + 1));
        }
        i += 1;
    }
    s
}

/// Whether two strings hold the same characters.
pub fn same_text(a: &str, b: &str) -> (r: bool)
    ensures
        r == (a@ == b@),
{
    broadcast use vstd::string::group_string_axioms;

    let mut x = a.chars();
    let mut y = b.chars();
    let ghost mut n: int = 0;
    loop
        invariant
            0 <= n <= a@.len(),
            n <= b@.len(),
            x.remaining() == a@.skip(n),
            y.remaining() == b@.skip(n),
            a@.take(n) == b@.take(n),
        decreases a@.len() - n,
    {
        let p = x.next();
        let q = y.next();
        match (p, q) {
            (Some(c), Some(d)) => {
                if c != d {
                    return false;
                }
                proof {
                    n = n + 1;
                }
            },
            (None, None) => {
                assert(a@ =~= a@.take(n));
                assert(b@ =~= b@.take(n));
                return true;
            },
            _ => {
                return false;
            },
        }
    }
}

/// The digit character for `d`, which is below ten.
pub open spec fn digit_char(d: int) -> char {
    (48 + d) as char
}

/// The upper-case hexadecimal digit for `d`, which is below sixteen.
pub open spec fn hex_char(d: int) -> char {
    if d < 10 {
        (48 + d) as char
    } else {
        (55 + d) as char
    }
}

/// `n` in decimal, without leading zeros.
pub open spec fn decimal_digits(n: nat) -> Seq<char>
    decreases n,
{
    if n < 10 {
        seq![digit_char(n as int)]
    } else {
        decimal_digits(n / 10).push(digit_char((n % 10) as int))
    }
}

/// `n` in upper-case hexadecimal, without leading zeros.
pub open spec fn hex_digits(n: nat) -> Seq<char>
    decreases n,
{
    if n < 16 {
        seq![hex_char(n as int)]
    } else {
        hex_digits(n / 16).push(hex_char((n % 16) as int))
    }
}

/// `n` in upper-case hexadecimal, padded with zeros to four digits.
pub open spec fn hex_code(n: nat) -> Seq<char> {
    if n < 0x10 {
        seq!['0', '0', '0'] + hex_digits(n)
    } else if n < 0x100 {
        seq!['0', '0'] + hex_digits(n)
    } else if n < 0x1000 {
        seq!['0'] + hex_digits(n)
    } else {
        hex_digits(n)
    }
}

/// The digit for `d`, in a base of up to sixteen.
fn numeral(d: u32) -> (c: char)
    requires
        d < 16,
    ensures
        c == hex_char(d as int),
{
    let b: u8 = if d < 10 {
        (48 + d) as u8
    } else {
        (55 + d) as u8
    };
    b as char
}

/// Appends `n` in decimal to `out`.
pub fn push_decimal(out: &mut String, n: usize)
    ensures
        final(out)@ == old(out)@ + decimal_digits(n as nat),
    decreases n,
{
    if n >= 10 {
        push_decimal(out, n / 10);
    }
    out.push(numeral((n % 10) as u32));
}

fn push_hex_digits(out: &mut String, n: u32)
    ensures
        final(out)@ == old(out)@ + hex_digits(n as nat),
    decreases n,
{
    if n >= 16 {
        push_hex_digits(out, n / 16);
    }
    out.push(numeral(n % 16));
}

/// Appends `n` in upper-case hexadecimal, at least four digits wide, to `out`.
pub fn push_hex_code(out: &mut String, n: u32)
    ensures
        final(out)@ == old(out)@ + hex_code(n as nat),
{
    if n < 0x10 {
        out.push('0');
        out.push('0');
        out.push('0');
    } else if n < 0x100 {
        out.push('0');
        out.push('0');
    } else if n < 0x1000 {
        out.push('0');
    }
    push_hex_digits(out, n);
}

/// A class of characters, of which a piece of text may be a maximal run.
#[derive(Clone, Copy, Debug)]
pub enum Run {
    /// Decimal digits.
    Digits,
    /// ASCII letters, digits and `_`.
    Word,
    /// Anything but the given character.
    Until(char),
    /// Spaces, tabs, carriage returns and line feeds.
    Blank,
    /// ASCII letters.
    Letters,
    /// ASCII letters and digits.
    LettersOrDigits,
}

impl Run {
    /// Whether `c` belongs to the class.
    pub open spec fn holds(self, c: char) -> bool {
        match self {
            Run::Digits => is_digit(c),
            Run::Word => is_ident_part(c),
            Run::Until(stop) => c != stop,
            Run::Blank => is_space(c),
            Run::Letters => is_letter(c),
            Run::LettersOrDigits => is_letter(c) || is_digit(c),
        }
    }

    /// The length of the longest run of the class in `s` that starts at `i`.
    pub open spec fn len(self, s: Seq<char>, i: int) -> nat
        decreases s.len() - i,
    {
        if 0 <= i < s.len() && self.holds(s[i]) {
            1 + self.len(s, i + 1)
        } else {
            0
        }
    }

    /// A run ends inside the text.
    pub proof fn lemma_len_bound(self, s: Seq<char>, i: int)
        requires
            0 <= i <= s.len(),
        ensures
            i + self.len(s, i) <= s.len(),
            forall|k: int| i <= k < i + self.len(s, i) ==> self.holds(#[trigger] s[k]),
            i + self.len(s, i) < s.len() ==> !self.holds(s[i + self.len(s, i)]),
        decreases s.len() - i,
    {
        if i < s.len() && self.holds(s[i]) {
            self.lemma_len_bound(s, i + 1);
        }
    }

    fn accepts(&self, c: char) -> (b: bool)
        ensures
            b == self.holds(c),
    {
        match self {
            Run::Digits => digit(c),
            Run::Word => ident_part(c),
            Run::Until(stop) => c != *stop,
            Run::Blank => space(c),
            Run::Letters => letter(c),
            Run::LettersOrDigits => letter(c) || digit(c),
        }
    }

    /// The index at which the run that starts at `from` ends.
    pub fn end(&self, chars: &[char], from: usize) -> (end: usize)
        ensures
            end == from + self.len(chars@, from as int),
            from <= end,
            from <= chars.len() ==> end <= chars.len(),
    {
        let mut j: usize = from;
        while j < chars.len() && self.accepts(chars[j])
            invariant
                from <= j,
                from <= chars.len() ==> j <= chars.len(),
                j + self.len(chars@, j as int) == from + self.len(chars@, from as int),
            decreases chars.len() - j,
        {
            j += 1;
        }
        j
    }
}

/// Where every character from `i` on belongs to the class, the run goes to
/// the end of the text.
pub proof fn lemma_all_in_run(run: Run, s: Seq<char>, i: int)
    requires
        0 <= i <= s.len(),
        forall|k: int| i <= k < s.len() ==> run.holds(#[trigger] s[k]),
    ensures
        i + run.len(s, i) == s.len(),
    decreases s.len() - i,
{
    if i < s.len() {
        lemma_all_in_run(run, s, i + 1);
    }
}

} // verus!
