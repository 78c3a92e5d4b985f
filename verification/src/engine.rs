//! The boundary to code that Verus does not check: the regex crate, which
//! compiles and runs the patterns this library builds, and the one `String`
//! operation that vstd leaves unspecified.
//!
//! Everything the rest of the library knows about these calls is stated
//! here, in the contracts of the wrappers.

use vstd::prelude::*;

verus! {

/// The characters that the regex crate treats as metacharacters; see
/// `regex_syntax::is_meta_character`, which `regex::escape` consults.
pub open spec fn is_meta(c: char) -> bool {
    ||| c == '\\'
    ||| c == '.'
    ||| c == '+'
    ||| c == '*'
    ||| c == '?'
    ||| c == '('
    ||| c == ')'
    ||| c == '|'
    ||| c == '['
    ||| c == ']'
    ||| c == '{'
    ||| c == '}'
    ||| c == '^'
    ||| c == '$'
    ||| c == '#'
    ||| c == '&'
    ||| c == '-'
    ||| c == '~'
}

/// How one character is escaped: metacharacters gain a leading backslash,
/// everything else passes through.
pub open spec fn esc_char(c: char) -> Seq<char> {
    if is_meta(c) {
        seq!['\\', c]
    } else {
        seq![c]
    }
}

/// Escaping a whole string, character by character.
pub open spec fn spec_escape(s: Seq<char>) -> Seq<char>
    decreases s.len(),
{
    if s.len() == 0 {
        Seq::empty()
    } else {
        esc_char(s[0]) + spec_escape(s.drop_first())
    }
}

/// Relies on `regex::escape`: it puts a backslash before every character of
/// `regex_syntax::is_meta_character`'s closed list and changes nothing else,
/// so the result matches exactly the original text.
#[verifier::external_body]
pub fn escape_literal(s: &str) -> (r: String)
    ensures
        r@ == spec_escape(s@),
{
    regex::escape(s)
}

#[verifier::external_type_specification]
#[verifier::external_body]
pub struct ExRegex(regex::Regex);

/// The pattern string a compiled regex holds, as `Regex::as_str` reports it.
/// All regexes of this library are built by `compile_pattern` below, so the
/// compilation options are the same for every value this is applied to.
pub uninterp spec fn pattern_held(re: regex::Regex) -> Seq<char>;

/// Every capture of a pattern against an input: one entry per match, in
/// input order, and inside it one entry per capture group (group 0, the
/// whole match, excluded), `None` where the group did not participate.
/// The regex crate is deterministic, so this is a function of the pattern
/// and the input alone, given the fixed options of `compile_pattern`.
pub uninterp spec fn captures_found(pattern: Seq<char>, input: Seq<char>) -> Seq<
    Seq<Option<Seq<char>>>,
>;

/// Whether a pattern compiles under a given compiled-size ceiling. The
/// regex crate's compilation is deterministic, and `compile_pattern` below
/// fixes every other option, so this is a function of the pattern text and
/// the ceiling alone. It names the success of `RegexBuilder::build`.
pub uninterp spec fn compiles(pattern: Seq<char>, size_limit: nat) -> bool;

/// Relies on `RegexBuilder::build`, run in multi-line mode with the given
/// compiled-size ceiling: it succeeds exactly when the pattern is
/// acceptable under that ceiling, and on success the regex holds exactly
/// the pattern it was given. Failure (bad syntax, or a compiled form over
/// the ceiling) is reported as the regex crate's own message.
#[verifier::external_body]
pub fn compile_pattern(pattern: &str, size_limit: usize) -> (r: Result<
    regex::Regex,
    String,
>)
    ensures
        r is Ok <==> compiles(pattern@, size_limit as nat),
        r matches Ok(re) ==> pattern_held(re) == pattern@,
{
    regex::RegexBuilder::new(pattern)
        .multi_line(true)
        .size_limit(size_limit)
        .build()
        .map_err(|e| e.to_string())
}

/// Relies on `Regex::captures_iter`, `Captures::len`, `Captures::get` and
/// `Match::as_str`: all non-overlapping matches, in input order, each handed
/// out as its capture groups 1 and up, converted to plain strings.
#[verifier::external_body]
pub fn all_captures(re: &regex::Regex, input: &str) -> (r: Vec<Vec<Option<String>>>)
    ensures
        r.deep_view() == captures_found(pattern_held(*re), input@),
{
    re.captures_iter(input)
        .map(|caps| {
            (1..caps.len()).map(|i| caps.get(i).map(|m| m.as_str().to_string())).collect()
        })
        .collect()
}

/// Relies on `String::push`, which vstd does not specify: it appends the one
/// character to the end of the string.
#[verifier::external_body]
pub fn push_char(s: &mut String, c: char)
    ensures
        final(s)@ == old(s)@.push(c),
{
    s.push(c);
}

} // verus!
