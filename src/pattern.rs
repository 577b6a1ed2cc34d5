//! The delimiter pattern: compiled regular expressions from the `regex`
//! crate, and what this library relies on of them.
use vstd::prelude::*;
use vstd::utf8::*;
use vstd::string::*;
use regex::Regex;

verus! {

#[verifier::external_type_specification]
#[verifier::external_body]
pub struct ExRegex(Regex);

/// The leftmost-first match of a compiled regular expression in a
/// haystack, as byte offsets. It depends on the compiled expression and the
/// haystack alone.
pub uninterp spec fn leftmost_match(re: Regex, haystack: Seq<char>) -> Option<(usize, usize)>;

/// The pattern text that a regular expression was compiled from.
pub uninterp spec fn regex_source(re: Regex) -> Seq<char>;

/// Whether a character has a meaning of its own in a pattern.
pub open spec fn is_meta_char(c: char) -> bool {
    c == '\\' || c == '.' || c == '+' || c == '*' || c == '?' || c == '(' || c == ')' || c
        == '|' || c == '[' || c == ']' || c == '{' || c == '}' || c == '^' || c == '$' || c
        == '#' || c == '&' || c == '-' || c == '~'
}

/// A pattern that matches exactly the given text: each meta character is
/// preceded by a backslash.
pub open spec fn escaped(s: Seq<char>) -> Seq<char>
    decreases s.len(),
{
    if s.len() == 0 {
        Seq::empty()
    } else {
        let head = if is_meta_char(s[0]) {
            seq!['\\', s[0]]
        } else {
            seq![s[0]]
        };
        head + escaped(s.drop_first())
    }
}

/// Relies on `Regex::find`: the leftmost-first match, whose offsets lie on
/// character boundaries of the haystack, start no later than end.
#[verifier::external_body]
pub(crate) fn find_match(re: &Regex, haystack: &str) -> (r: Option<(usize, usize)>)
    ensures
        r == leftmost_match(*re, haystack@),
        r matches Some((s, e)) ==> s <= e <= haystack.spec_bytes().len() && is_char_boundary(
            haystack.spec_bytes(),
            s as int,
        ) && is_char_boundary(haystack.spec_bytes(), e as int),
{
    re.find(haystack).map(|m| (m.start(), m.end()))
}

/// Whether `Regex::new` accepts a pattern: its syntax is valid and it fits
/// the default size limits. It depends on the pattern alone.
pub uninterp spec fn compiles(pattern: Seq<char>) -> bool;

/// Relies on `Regex::new`: it succeeds exactly on the patterns it accepts,
/// among them `\s+` (the documented whitespace class, repeated), and a
/// compiled expression remembers its pattern.
#[verifier::external_body]
pub(crate) fn compile(pattern: &str) -> (r: Option<Regex>)
    ensures
        r is Some <==> compiles(pattern@),
        pattern@ == "\\s+"@ ==> r is Some,
        r matches Some(re) ==> regex_source(re) == pattern@,
{
    Regex::new(pattern).ok()
}

/// Relies on `Regex::as_str`: the pattern the expression was compiled from.
#[verifier::external_body]
pub(crate) fn source_of(re: &Regex) -> (r: &str)
    ensures
        r@ == regex_source(*re),
{
    re.as_str()
}

/// Relies on `regex::escape`: a backslash before each meta character.
#[verifier::external_body]
pub(crate) fn escape_literal(text: &str) -> (r: String)
    ensures
        r@ == escaped(text@),
{
    regex::escape(text)
}

/// Bytes that are not valid UTF-8 but become so once more bytes follow:
/// they end in the middle of a character.
pub open spec fn cut_short(bytes: Seq<u8>) -> bool {
    !valid_utf8(bytes) && exists|more: Seq<u8>| valid_utf8(bytes + more)
}

/// Relies on `std::str::from_utf8`: it accepts exactly the valid UTF-8
/// sequences and borrows the same bytes as text; its error has no
/// `error_len` exactly where the input ends in the middle of a character.
#[verifier::external_body]
pub(crate) fn decode_text(bytes: &[u8]) -> (r: Result<&str, bool>)
    ensures
        r is Ok <==> valid_utf8(bytes@),
        r matches Ok(t) ==> t.spec_bytes() == bytes@,
        r matches Err(short) ==> short == cut_short(bytes@),
{
    std::str::from_utf8(bytes).map_err(|e| e.error_len().is_none())
}

} // verus!
