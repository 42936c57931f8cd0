use vstd::prelude::*;

verus! {

/// Whether a character has the Unicode White_Space property, the white
/// space of `char::is_whitespace` and `str::trim`.
pub open spec fn white_space(c: char) -> bool {
    ('\u{9}' <= c && c <= '\u{d}') || c == ' ' || c == '\u{85}' || c == '\u{a0}'
        || c == '\u{1680}' || ('\u{2000}' <= c && c <= '\u{200a}') || c == '\u{2028}'
        || c == '\u{2029}' || c == '\u{202f}' || c == '\u{205f}' || c == '\u{3000}'
}

/// The text without its leading white space.
pub open spec fn trim_start_of(s: Seq<char>) -> Seq<char>
    decreases s.len(),
{
    if s.len() > 0 && white_space(s[0]) {
        trim_start_of(s.drop_first())
    } else {
        s
    }
}

/// The text without its trailing white space.
pub open spec fn trim_end_of(s: Seq<char>) -> Seq<char>
    decreases s.len(),
{
    if s.len() > 0 && white_space(s[s.len() - 1]) {
        trim_end_of(s.drop_last())
    } else {
        s
    }
}

/// The text with leading and trailing white space removed.
pub open spec fn trim_of(s: Seq<char>) -> Seq<char> {
    trim_end_of(trim_start_of(s))
}

pub open spec fn is_ascii_alnum(c: char) -> bool {
    ('a' <= c && c <= 'z') || ('A' <= c && c <= 'Z') || ('0' <= c && c <= '9')
}

/// Relies on `str::trim`: the text with leading and trailing White_Space
/// characters removed.
#[verifier::external_body]
fn trim_str(s: &str) -> (r: &str)
    ensures
        r@ == trim_of(s@),
{
    s.trim()
}

/// Whether the text is empty or holds white space only.
pub open spec fn is_blank(s: Seq<char>) -> bool {
    trim_of(s).len() == 0
}

/// The number of characters of `s`, counted up to `cap`.
pub fn char_count_upto(s: &str, cap: usize) -> (r: usize)
    ensures
        r == if s@.len() < cap { s@.len() as usize } else { cap },
{
    let mut n: usize = 0;
    for c in it: s.chars()
        invariant_except_break
            n == it.index(),
        invariant
            n <= cap,
            it.seq() == s@,
        ensures
            n == if s@.len() < cap { s@.len() as usize } else { cap },
    {
        if n == cap {
            break;
        }
        n = n + 1;
    }
    n
}

} // verus!

verus! {

/// Why a form field was refused before any request was made.
#[derive(Debug, Clone, Copy, PartialEq, Eq, Structural)]
pub enum FieldError {
    /// Empty, or white space only.
    Required,
    /// Fewer characters than the field's minimum.
    TooShort,
    /// More characters than the field's maximum.
    TooLong,
    /// A password without a letter, a digit and a character that is neither.
    Weak,
}

/// The outcome of checking a text field: a required field must not be blank;
/// a field with a minimum (when filled in) or a maximum holds that many
/// characters.
pub open spec fn text_check(s: Seq<char>, required: bool, min: nat, max: Option<nat>) -> Result<
    (),
    FieldError,
> {
    if required && is_blank(s) {
        Err(FieldError::Required)
    } else if s.len() > 0 && s.len() < min {
        Err(FieldError::TooShort)
    } else if max is Some && s.len() > max->0 {
        Err(FieldError::TooLong)
    } else {
        Ok(())
    }
}

pub fn check_text(s: &str, required: bool, min: usize, max: Option<usize>) -> (r: Result<
    (),
    FieldError,
>)
    requires
        min < usize::MAX,
        max is Some ==> max->0 < usize::MAX,
    ensures
        r == text_check(
            s@,
            required,
            min as nat,
            match max {
                Some(m) => Some(m as nat),
                None => None,
            },
        ),
        required && s@.len() == 0 ==> r == Err::<(), FieldError>(FieldError::Required),
{
    if required && trim_str(s).is_empty() {
        return Err(FieldError::Required);
    }
    let short: usize = char_count_upto(s, min);
    if 0 < short && short < min {
        return Err(FieldError::TooShort);
    }
    match max {
        Some(m) => {
            if char_count_upto(s, m + 1) > m {
                Err(FieldError::TooLong)
            } else {
                Ok(())
            }
        },
        None => Ok(()),
    }
}

/// An optional text field: trimmed, and absent when nothing is left.
pub open spec fn trimmed_option(s: Seq<char>) -> Option<Seq<char>> {
    if is_blank(s) {
        None
    } else {
        Some(trim_of(s))
    }
}

pub fn trim_to_option(s: &str) -> (r: Option<String>)
    ensures
        match r {
            Some(t) => trimmed_option(s@) == Some(t@),
            None => trimmed_option(s@) is None,
        },
{
    let t = trim_str(s);
    if t.is_empty() {
        None
    } else {
        Some(t.to_owned())
    }
}

/// The field trimmed of leading and trailing white space.
pub fn trimmed(s: &str) -> (r: String)
    ensures
        r@ == trim_of(s@),
{
    trim_str(s).to_owned()
}

/// Whether `c` is white space, as `char::is_whitespace` answers.
pub fn is_white_space(c: char) -> (r: bool)
    ensures
        r == white_space(c),
{
    ('\u{9}' <= c && c <= '\u{d}') || c == ' ' || c == '\u{85}' || c == '\u{a0}'
        || c == '\u{1680}' || ('\u{2000}' <= c && c <= '\u{200a}') || c == '\u{2028}'
        || c == '\u{2029}' || c == '\u{202f}' || c == '\u{205f}' || c == '\u{3000}'
}

pub open spec fn is_ascii_digit(c: char) -> bool {
    '0' <= c && c <= '9'
}

pub open spec fn is_ascii_letter(c: char) -> bool {
    ('a' <= c && c <= 'z') || ('A' <= c && c <= 'Z')
}

/// A character that is neither an ASCII letter or digit nor white space.
pub open spec fn is_symbol(c: char) -> bool {
    !is_ascii_alnum(c) && !white_space(c)
}

/// A password holds an ASCII digit, an ASCII letter, and a symbol.
pub open spec fn strong_password(p: Seq<char>) -> bool {
    &&& exists|i: int| 0 <= i < p.len() && is_ascii_digit(#[trigger] p[i])
    &&& exists|i: int| 0 <= i < p.len() && is_ascii_letter(#[trigger] p[i])
    &&& exists|i: int| 0 <= i < p.len() && is_symbol(#[trigger] p[i])
}

pub fn is_strong_password(p: &str) -> (r: bool)
    ensures
        r == strong_password(p@),
{
    let mut digit = false;
    let mut letter = false;
    let mut symbol = false;
    for c in it: p.chars()
        invariant
            it.seq() == p@,
            digit == exists|i: int| 0 <= i < it.index() && is_ascii_digit(#[trigger] p@[i]),
            letter == exists|i: int| 0 <= i < it.index() && is_ascii_letter(#[trigger] p@[i]),
            symbol == exists|i: int| 0 <= i < it.index() && is_symbol(#[trigger] p@[i]),
    {
        let ghost k = it.index();
        assert(c == p@[k]);
        if '0' <= c && c <= '9' {
            digit = true;
        } else if ('a' <= c && c <= 'z') || ('A' <= c && c <= 'Z') {
            letter = true;
        } else if !is_white_space(c) {
            symbol = true;
        }
    }
    digit && letter && symbol
}

} // verus!
