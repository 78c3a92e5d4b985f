//! The shape of an error message: an ordered sequence of tokens, and the
//! single pattern their fragments concatenate to.
//!
//! The crux of the design is the group-to-field alignment invariant:
//! every token, bound or not, contributes exactly one capture group to the
//! pattern, and the groups appear in token order. `lemma_group_alignment`
//! below proves the counting half of that invariant for every shape.

use vstd::prelude::*;

use crate::engine::esc_char;
use crate::engine::is_meta;
use crate::engine::spec_escape;
use crate::token::lemma_fragment_matches_raw;
use crate::token::raw_fragment;
use crate::token::spec_fragment;
use crate::token::tokens_match;
use crate::token::Token;

verus! {

/// An ordered sequence of tokens, built once by repeated `push`.
#[derive(Debug)]
pub struct Shape(pub Vec<Token>);

/// The pattern a token sequence compiles to: the fragments, in order.
pub open spec fn spec_pattern(ts: Seq<Token>) -> Seq<char>
    decreases ts.len(),
{
    if ts.len() == 0 {
        Seq::empty()
    } else {
        spec_pattern(ts.drop_last()) + spec_fragment(ts.last())
    }
}

/// The pattern a raw token sequence compiles to, stated on the raw text
/// alone: the same concatenation, one fragment per raw token.
pub open spec fn pattern_of_raws(raws: Seq<Seq<char>>) -> Seq<char>
    decreases raws.len(),
{
    if raws.len() == 0 {
        Seq::empty()
    } else {
        pattern_of_raws(raws.drop_last()) + raw_fragment(raws.last())
    }
}

/// The pattern of a shape is determined by the raw tokens its tokens map.
pub proof fn lemma_pattern_of_raws(ts: Seq<Token>, raws: Seq<Seq<char>>)
    requires
        tokens_match(ts, raws),
    ensures
        spec_pattern(ts) == pattern_of_raws(raws),
    decreases ts.len(),
{
    if ts.len() > 0 {
        assert(tokens_match(ts.drop_last(), raws.drop_last()));
        lemma_pattern_of_raws(ts.drop_last(), raws.drop_last());
        lemma_fragment_matches_raw(ts.last(), raws.last());
    }
}

/// The number of capture groups a pattern text opens from position `i`
/// on: an unescaped `(` opens one; a backslash escapes the character
/// after it. None of this library's fragments uses a character class or a
/// group modifier that could make an unescaped `(` mean anything else, so
/// for the patterns built here this is exactly the regex group count.
pub open spec fn group_count_from(s: Seq<char>, i: int) -> nat
    decreases s.len() - i,
{
    if i < 0 || i >= s.len() {
        0
    } else if s[i] == '\\' {
        if i + 2 <= s.len() {
            group_count_from(s, i + 2)
        } else {
            0
        }
    } else if s[i] == '(' {
        1 + group_count_from(s, i + 1)
    } else {
        group_count_from(s, i + 1)
    }
}

/// A pattern text is well formed from position `i` when no backslash
/// dangles at the end: scanning by units (an escape pair, or a single
/// character) lands exactly on the end of the text.
pub open spec fn wf_pattern_from(s: Seq<char>, i: int) -> bool
    decreases s.len() - i,
{
    if i < 0 || i >= s.len() {
        true
    } else if s[i] == '\\' {
        i + 2 <= s.len() && wf_pattern_from(s, i + 2)
    } else {
        wf_pattern_from(s, i + 1)
    }
}

/// Scanning a concatenation from inside the right part sees only the
/// right part.
proof fn lemma_scan_shift(a: Seq<char>, b: Seq<char>, k: int)
    requires
        0 <= k,
    ensures
        group_count_from(a + b, a.len() + k) == group_count_from(b, k),
        wf_pattern_from(a + b, a.len() + k) == wf_pattern_from(b, k),
    decreases b.len() - k,
{
    if k < b.len() {
        assert((a + b)[a.len() + k] == b[k]);
        if b[k] == '\\' {
            if k + 2 <= b.len() {
                lemma_scan_shift(a, b, k + 2);
            }
        } else {
            lemma_scan_shift(a, b, k + 1);
        }
    }
}

/// Scanning a concatenation from inside a well-formed left part splits
/// into the two parts' own scans.
proof fn lemma_scan_concat(a: Seq<char>, b: Seq<char>, i: int)
    requires
        0 <= i <= a.len(),
        wf_pattern_from(a, i),
    ensures
        group_count_from(a + b, i) == group_count_from(a, i) + group_count_from(b, 0),
        wf_pattern_from(a + b, i) == wf_pattern_from(b, 0),
    decreases a.len() - i,
{
    if i == a.len() {
        lemma_scan_shift(a, b, 0);
    } else {
        assert((a + b)[i] == a[i]);
        if a[i] == '\\' {
            lemma_scan_concat(a, b, i + 2);
        } else {
            lemma_scan_concat(a, b, i + 1);
        }
    }
}

/// Escaped literal text is well formed and opens no group: the escape
/// of each character is either a non-metacharacter (so neither `\` nor
/// `(`), or a backslash pair that the scan skips whole.
proof fn lemma_escape_scan(s: Seq<char>)
    ensures
        wf_pattern_from(spec_escape(s), 0),
        group_count_from(spec_escape(s), 0) == 0,
    decreases s.len(),
{
    if s.len() > 0 {
        lemma_escape_scan(s.drop_first());
        let e = esc_char(s[0]);
        let rest = spec_escape(s.drop_first());
        assert(spec_escape(s) == e + rest);
        if is_meta(s[0]) {
            assert((e + rest)[0] == '\\');
            lemma_scan_shift(e, rest, 0);
        } else {
            assert((e + rest)[0] == s[0]);
            assert(s[0] != '\\' && s[0] != '(');
            lemma_scan_shift(e, rest, 0);
            assert(e.len() + 0 == 1);
        }
    }
}

/// Every fragment is well formed and opens exactly one capture group.
proof fn lemma_fragment_one_group(t: Token)
    ensures
        wf_pattern_from(spec_fragment(t), 0),
        group_count_from(spec_fragment(t), 0) == 1,
{
    reveal_with_fuel(group_count_from, 16);
    reveal_with_fuel(wf_pattern_from, 16);
    match t {
        Token::Column | Token::Line => {
            reveal_strlit("(\\d+)");
        },
        Token::File => {
            reveal_strlit("([^\\x00]+?)");
        },
        Token::Kind => {
            reveal_strlit("(\\b[a-zA-Z]+\\b)");
        },
        Token::Message => {
            reveal_strlit("([^\\n]+)");
        },
        Token::Whitespace => {
            reveal_strlit("(\\s+)");
        },
        Token::Wildcard => {
            reveal_strlit("(.*?)");
        },
        Token::Literal(s) => {
            lemma_escape_scan(s@);
            let esc = spec_escape(s@);
            let open = seq!['('];
            let tail = esc + seq![')'];
            assert(spec_fragment(t) =~= open + tail);
            assert((open + tail)[0] == '(');
            lemma_scan_shift(open, tail, 0);
            lemma_scan_concat(esc, seq![')'], 0);
            let close = seq![')'];
            assert(close.len() == 1 && close[0] == ')');
            assert(group_count_from(close, 1) == 0);
            assert(wf_pattern_from(close, 1));
            assert(group_count_from(close, 0) == 0);
            assert(wf_pattern_from(close, 0));
        },
    }
}

/// The group-to-field alignment invariant, counting half: the pattern a
/// token sequence compiles to opens exactly one capture group per token,
/// whatever the tokens are.
pub proof fn lemma_group_alignment(ts: Seq<Token>)
    ensures
        wf_pattern_from(spec_pattern(ts), 0),
        group_count_from(spec_pattern(ts), 0) == ts.len(),
    decreases ts.len(),
{
    if ts.len() > 0 {
        lemma_group_alignment(ts.drop_last());
        lemma_fragment_one_group(ts.last());
        lemma_scan_concat(spec_pattern(ts.drop_last()), spec_fragment(ts.last()), 0);
    }
}

impl Shape {
    /// An empty shape. It compiles to an empty pattern and produces no
    /// records.
    pub fn new() -> (s: Shape)
        ensures
            s.0@ == Seq::<Token>::empty(),
    {
        let s = Shape(Vec::new());
        proof {
            assert(s.0@ =~= Seq::<Token>::empty());
        }
        s
    }

    /// The shape with one more token appended at the end.
    pub fn push(self, token: Token) -> (s: Shape)
        ensures
            s.0@ == self.0@.push(token),
    {
        let Shape(mut v) = self;
        v.push(token);
        Shape(v)
    }

    /// Concatenate the fragments of all tokens into the one pattern this
    /// shape compiles to.
    pub fn to_pattern(&self) -> (r: String)
        ensures
            r@ == spec_pattern(self.0@),
    {
        let mut r = String::new();
        let mut i: usize = 0;
        proof {
            assert(r@ =~= spec_pattern(self.0@.take(0)));
        }
        while i < self.0.len()
            invariant
                i <= self.0@.len(),
                r@ == spec_pattern(self.0@.take(i as int)),
            decreases self.0@.len() - i,
        {
            let frag = self.0[i].fragment();
            r.append(frag.as_str());
            i = i + 1;
            proof {
                assert(self.0@.take(i as int).drop_last() =~= self.0@.take(i - 1));
                assert(self.0@.take(i as int).last() == self.0@[i - 1]);
            }
        }
        proof {
            assert(self.0@.take(self.0@.len() as int) =~= self.0@);
        }
        r
    }
}

} // verus!
