//! `let` declarations read straight from source text, without tokens.
//!
//! ```text
//! let-text := ws "let" ws ["mut"] ws LETTERS ws [":" ws LETTERS] ws "=" ws ALNUMS
//! ```
//!
//! `ws` is any run of spaces, tabs, carriage returns and line feeds, `LETTERS`
//! is a run of at least one ASCII letter and `ALNUMS` a run of at least one
//! ASCII letter or digit. Each piece is the longest that fits, and a keyword
//! is taken where the text begins with it, whatever follows: in `let mutx = 1`
//! the variable is `x`, and it is mutable. A colon that no type follows is not
//! taken, so that the text fails at the `=`.

use crate::text::{chars_of, string_of, Run};
use vstd::prelude::*;
use vstd::string::StrSliceExecFns;

verus! {

/// What a `let` declaration in source text says.
#[derive(Debug, PartialEq)]
pub struct LetText {
    pub mutable: bool,
    pub name: String,
    pub ty: Option<String>,
    pub value: String,
}

/// The mathematical value of a [`LetText`].
pub struct LetTextView {
    pub mutable: bool,
    pub name: Seq<char>,
    pub ty: Option<Seq<char>>,
    pub value: Seq<char>,
}

impl View for LetText {
    type V = LetTextView;

    open spec fn view(&self) -> LetTextView {
        LetTextView {
            mutable: self.mutable,
            name: self.name@,
            ty: match self.ty {
                Some(t) => Some(t@),
                None => None,
            },
            value: self.value@,
        }
    }
}

/// The piece of a declaration that is missing.
#[derive(Clone, Copy, Debug, PartialEq, Eq, Structural)]
pub enum Expected {
    /// The keyword `let`.
    Let,
    /// The name of the variable.
    Name,
    /// The sign `=`.
    Equals,
    /// The value.
    Value,
}

/// Why a text is no `let` declaration: the piece that is missing, and the
/// number of characters before the place where it should stand.
#[derive(Clone, Copy, Debug, PartialEq, Eq, Structural)]
pub struct LetTextError {
    pub expected: Expected,
    pub at: usize,
}

/// Whether `s` holds `word` at position `i`.
pub open spec fn holds_at(s: Seq<char>, i: int, word: Seq<char>) -> bool {
    0 <= i && i + word.len() <= s.len() && s.subrange(i, i + word.len()) == word
}

/// The position behind the blanks that start at `i`.
pub open spec fn skip_blank(s: Seq<char>, i: int) -> int {
    i + Run::Blank.len(s, i)
}

/// A declaration that was read, and the number of characters that it took.
pub struct LetTextRead {
    pub decl: LetTextView,
    pub used: int,
}

/// The declaration at the start of `s`, or the piece that is missing and its
/// place.
pub open spec fn let_text(s: Seq<char>) -> Result<LetTextRead, (Expected, int)> {
    let at_let = skip_blank(s, 0);
    if !holds_at(s, at_let, "let"@) {
        Err((Expected::Let, at_let))
    } else {
        let at_mut = skip_blank(s, at_let + 3);
        let mutable = holds_at(s, at_mut, "mut"@);
        let at_name = skip_blank(
            s,
            if mutable {
                at_mut + 3
            } else {
                at_mut
            },
        );
        let name_len = Run::Letters.len(s, at_name);
        if name_len == 0 {
            Err((Expected::Name, at_name))
        } else {
            let at_colon = skip_blank(s, at_name + name_len);
            let at_type = skip_blank(s, at_colon + 1);
            let type_len = Run::Letters.len(s, at_type);
            let typed = holds_at(s, at_colon, seq![':']) && type_len > 0;
            let at_eq = skip_blank(
                s,
                if typed {
                    at_type + type_len
                } else {
                    at_colon
                },
            );
            if !holds_at(s, at_eq, seq!['=']) {
                Err((Expected::Equals, at_eq))
            } else {
                let at_value = skip_blank(s, at_eq + 1);
                let value_len = Run::LettersOrDigits.len(s, at_value);
                if value_len == 0 {
                    Err((Expected::Value, at_value))
                } else {
                    Ok(
                        LetTextRead {
                            decl: LetTextView {
                                mutable,
                                name: s.subrange(at_name, at_name + name_len),
                                ty: if typed {
                                    Some(s.subrange(at_type, at_type + type_len))
                                } else {
                                    None
                                },
                                value: s.subrange(at_value, at_value + value_len),
                            },
                            used: at_value + value_len,
                        },
                    )
                }
            }
        }
    }
}

/// Whether `chars` holds `word` at position `from`.
fn found_at(chars: &[char], from: usize, word: &str) -> (b: bool)
    requires
        from <= chars.len(),
    ensures
        b == holds_at(chars@, from as int, word@),
{
    let letters = chars_of(word);
    if letters.len() > chars.len() - from {
        return false;
    }
    let mut k: usize = 0;
    while k < letters.len()
        invariant
            k <= letters.len(),
            letters@ == word@,
            from + letters.len() <= chars.len(),
            forall|j: int| 0 <= j < k ==> chars@[from + j] == letters@[j],
        decreases letters.len() - k,
    {
        if chars[from + k] != letters[k] {
            return false;
        }
        k += 1;
    }
    assert(chars@.subrange(from as int, from + letters.len()) =~= letters@);
    true
}

/// Reads a `let` declaration from the start of a source text.
///
/// Yields the declaration and the text behind it, or else the piece that is
/// missing and its place. The value is not read as an expression: it is the
/// run of letters and digits behind the `=`.
pub fn parse_let<'a>(input: &'a str) -> (r: Result<(&'a str, LetText), LetTextError>)
    ensures
        match r {
            Ok((rest, decl)) => let_text(input@) matches Ok(read) && decl@ == read.decl && rest@
                == input@.subrange(read.used, input@.len() as int),
            Err(e) => let_text(input@) == Err::<LetTextRead, (Expected, int)>(
                (e.expected, e.at as int),
            ),
        },
{
    let chars = chars_of(input);
    let text = chars.as_slice();
    let ghost s = chars@;
    proof {
        reveal_strlit("let");
        reveal_strlit("mut");
        reveal_strlit(":");
        reveal_strlit("=");
        assert(":"@ =~= seq![':']);
        assert("="@ =~= seq!['=']);
    }
    let at_let = Run::Blank.end(text, 0);
    if !found_at(text, at_let, "let") {
        return Err(LetTextError { expected: Expected::Let, at: at_let });
    }
    let at_mut = Run::Blank.end(text, at_let + 3);
    let mutable = found_at(text, at_mut, "mut");
    let at_name = Run::Blank.end(
        text,
        if mutable {
            at_mut + 3
        } else {
            at_mut
        },
    );
    let name_end = Run::Letters.end(text, at_name);
    if name_end == at_name {
        return Err(LetTextError { expected: Expected::Name, at: at_name });
    }
    let name = string_of(text, at_name, name_end);
    let at_colon = Run::Blank.end(text, name_end);
    let mut ty: Option<String> = None;
    let mut at_eq = at_colon;
    if found_at(text, at_colon, ":") {
        let at_type = Run::Blank.end(text, at_colon + 1);
        let type_end = Run::Letters.end(text, at_type);
        if type_end > at_type {
            ty = Some(string_of(text, at_type, type_end));
            at_eq = type_end;
        }
    }
    let at_eq = Run::Blank.end(text, at_eq);
    if !found_at(text, at_eq, "=") {
        return Err(LetTextError { expected: Expected::Equals, at: at_eq });
    }
    let at_value = Run::Blank.end(text, at_eq + 1);
    let value_end = Run::LettersOrDigits.end(text, at_value);
    if value_end == at_value {
        return Err(LetTextError { expected: Expected::Value, at: at_value });
    }
    let value = string_of(text, at_value, value_end);
    let rest = input.substring_char(value_end, chars.len());
    Ok((rest, LetText { mutable, name, ty, value }))
}

} // verus!
