//! Mapping a raw token to its semantic unit and to the pattern fragment
//! that matches it. Every fragment is wrapped in exactly one capture
//! group, so groups line up with tokens one-to-one.

use vstd::prelude::*;

use crate::engine::escape_literal;
use crate::engine::spec_escape;
use crate::errfmt::is_placeholder;

verus! {

/// A section of input data, referred to by a placeholder of the template,
/// or a run of literal text.
#[derive(Debug, Clone)]
pub enum Token {
    Column,
    File,
    Kind,
    Line,
    Message,
    Whitespace,
    Wildcard,
    Literal(String),
}

/// `%%` collapses to a single percent sign before storage; every other raw
/// token passes through unchanged.
pub open spec fn spec_dedupe(raw: Seq<char>) -> Seq<char> {
    if raw == seq!['%', '%'] {
        seq!['%']
    } else {
        raw
    }
}

/// Whether a token is what the given raw token maps to. Each placeholder
/// raw maps to its own variant; everything else, `%%` included, becomes a
/// literal holding the (de-duplicated) text.
pub open spec fn matches_raw(t: Token, raw: Seq<char>) -> bool {
    match t {
        Token::Column => raw == seq!['%', 'c'],
        Token::File => raw == seq!['%', 'f'],
        Token::Kind => raw == seq!['%', 'k'],
        Token::Line => raw == seq!['%', 'l'],
        Token::Message => raw == seq!['%', 'm'],
        Token::Whitespace => raw == seq!['%', '.'],
        Token::Wildcard => raw == seq!['%', '*'],
        Token::Literal(s) => !(is_placeholder(raw) && raw[1] != '%') && s@ == spec_dedupe(raw),
    }
}

/// Collapse a two-character `%%` to the one-character percent sign it
/// stands for; leave any other text alone.
pub fn dedupe_percent_signs(value: &str) -> (r: String)
    ensures
        r@ == spec_dedupe(value@),
{
    let n = value.unicode_len();
    if n == 2 && value.get_char(0) == '%' && value.get_char(1) == '%' {
        let r = String::from_str("%");
        proof {
            reveal_strlit("%");
            assert(value@ =~= seq!['%', '%']);
            assert(r@ =~= seq!['%']);
        }
        r
    } else {
        proof {
            if value@ == seq!['%', '%'] {
                assert(value@.len() == 2 && value@[0] == '%' && value@[1] == '%');
            }
        }
        value.to_owned()
    }
}

/// Whether a token sequence is what the given raw tokens map to, element
/// by element.
pub open spec fn tokens_match(ts: Seq<Token>, raws: Seq<Seq<char>>) -> bool {
    ts.len() == raws.len() && forall|i: int|
        0 <= i < ts.len() ==> matches_raw(#[trigger] ts[i], raws[i])
}

/// The pattern fragment a token compiles to, capture group included.
pub open spec fn spec_fragment(t: Token) -> Seq<char> {
    match t {
        Token::Column => "(\\d+)"@,
        Token::File => "([^\\x00]+?)"@,
        Token::Kind => "(\\b[a-zA-Z]+\\b)"@,
        Token::Line => "(\\d+)"@,
        Token::Message => "([^\\n]+)"@,
        Token::Whitespace => "(\\s+)"@,
        Token::Wildcard => "(.*?)"@,
        Token::Literal(s) => seq!['('] + spec_escape(s@) + seq![')'],
    }
}

/// The pattern fragment a raw token compiles to, stated on the raw text
/// alone: each placeholder maps to its fixed fragment, anything else to
/// its de-duplicated, escaped literal text.
pub open spec fn raw_fragment(raw: Seq<char>) -> Seq<char> {
    if raw == seq!['%', 'c'] {
        "(\\d+)"@
    } else if raw == seq!['%', 'f'] {
        "([^\\x00]+?)"@
    } else if raw == seq!['%', 'k'] {
        "(\\b[a-zA-Z]+\\b)"@
    } else if raw == seq!['%', 'l'] {
        "(\\d+)"@
    } else if raw == seq!['%', 'm'] {
        "([^\\n]+)"@
    } else if raw == seq!['%', '.'] {
        "(\\s+)"@
    } else if raw == seq!['%', '*'] {
        "(.*?)"@
    } else {
        seq!['('] + spec_escape(spec_dedupe(raw)) + seq![')']
    }
}

/// A token's fragment is determined by the raw token it maps: the raw
/// pins the variant, and a literal's fragment depends only on its text.
pub proof fn lemma_fragment_matches_raw(t: Token, raw: Seq<char>)
    requires
        matches_raw(t, raw),
    ensures
        spec_fragment(t) == raw_fragment(raw),
{
    match t {
        Token::Literal(s) => {
            if raw == seq!['%', 'c'] || raw == seq!['%', 'f'] || raw == seq!['%', 'k'] || raw
                == seq!['%', 'l'] || raw == seq!['%', 'm'] || raw == seq!['%', '.'] || raw
                == seq!['%', '*'] {
                assert(is_placeholder(raw) && raw[1] != '%');
            }
        },
        _ => {},
    }
}

impl Token {
    /// Read a raw token. This is total: any raw token that is not a
    /// recognized placeholder becomes a literal.
    pub fn from(value: &str) -> (t: Token)
        ensures
            matches_raw(t, value@),
    {
        let n = value.unicode_len();
        if n == 2 && value.get_char(0) == '%' {
            let sel = value.get_char(1);
            proof {
                assert(value@ =~= seq!['%', sel]);
            }
            match sel {
                'c' => Token::Column,
                'f' => Token::File,
                'k' => Token::Kind,
                'l' => Token::Line,
                'm' => Token::Message,
                '.' => Token::Whitespace,
                '*' => Token::Wildcard,
                _ => Token::Literal(dedupe_percent_signs(value)),
            }
        } else {
            proof {
                if is_placeholder(value@) {
                    assert(value@.len() == 2 && value@[0] == '%');
                }
            }
            Token::Literal(dedupe_percent_signs(value))
        }
    }

    /// The pattern fragment for this token: a fixed well-known piece for
    /// each placeholder, and the escaped text for a literal, each wrapped
    /// in one capture group.
    pub fn fragment(&self) -> (r: String)
        ensures
            r@ == spec_fragment(*self),
    {
        match self {
            Token::Column => String::from_str("(\\d+)"),
            Token::File => String::from_str("([^\\x00]+?)"),
            Token::Kind => String::from_str("(\\b[a-zA-Z]+\\b)"),
            Token::Line => String::from_str("(\\d+)"),
            Token::Message => String::from_str("([^\\n]+)"),
            Token::Whitespace => String::from_str("(\\s+)"),
            Token::Wildcard => String::from_str("(.*?)"),
            Token::Literal(s) => {
                let mut r = String::from_str("(");
                let escaped = escape_literal(s.as_str());
                r.append(escaped.as_str());
                r.append(")");
                proof {
                    reveal_strlit("(");
                    reveal_strlit(")");
                    assert(r@ =~= seq!['('] + spec_escape(s@) + seq![')']);
                }
                r
            },
        }
    }
}

} // verus!
