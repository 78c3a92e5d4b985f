//! Splitting an errorformat template into raw tokens: each raw token is
//! either a two-character placeholder or a maximal run of literal text, and
//! concatenating them gives the template back unchanged.

use vstd::prelude::*;

use crate::engine::push_char;

verus! {

/// Template shapes that worked well for common tools. These are plain
/// configuration values; the tokenizer treats them like any other template.
pub const ESLINT_ERRFMT: &'static str = "%.%f%.%l:%c  %k  %m";

pub const GOLINT_ERRFMT: &'static str = "%f:%l:%c: %m";

pub const PASSTHROUGH_ERRFMT: &'static str = "%f:%l:%c: %k: %m";

pub const PHP_ERRFMT: &'static str = "%k: %m in %f on line %l";

pub const RUSTFMT_ERRFMT: &'static str = "%k%*: %m%.--> %f:%l:%c";

pub const SHELLCHECK_ERRFMT: &'static str = "%f:%l:%c: %k: %m";

/// The selector characters that may follow a percent sign in a
/// placeholder.
pub open spec fn is_selector(c: char) -> bool {
    ||| c == '%'
    ||| c == 'f'
    ||| c == 'l'
    ||| c == 'c'
    ||| c == 'k'
    ||| c == 'm'
    ||| c == '.'
    ||| c == '*'
}

/// A raw token that is a complete recognized placeholder, `%%` included.
pub open spec fn is_placeholder(t: Seq<char>) -> bool {
    t.len() == 2 && t[0] == '%' && is_selector(t[1])
}

/// Whether the next character begins a fresh raw token, given everything
/// accumulated so far: the very first character always does; a percent sign
/// does unless it completes `%%`; and anything does right after a complete
/// placeholder, so placeholders never run into adjacent text.
pub open spec fn spec_token_start(acc: Seq<Seq<char>>, c: char) -> bool {
    if acc.len() == 0 {
        true
    } else if c == '%' {
        acc.last() != seq!['%']
    } else {
        is_placeholder(acc.last())
    }
}

/// The tokenizer, as a fold over the template's characters.
pub open spec fn spec_tokenize(s: Seq<char>) -> Seq<Seq<char>>
    decreases s.len(),
{
    if s.len() == 0 {
        Seq::empty()
    } else {
        let acc = spec_tokenize(s.drop_last());
        let c = s.last();
        if spec_token_start(acc, c) {
            acc.push(seq![c])
        } else {
            acc.update(acc.len() - 1, acc.last().push(c))
        }
    }
}

/// Concatenation of a token sequence back into one string.
pub open spec fn concat_all(ts: Seq<Seq<char>>) -> Seq<char>
    decreases ts.len(),
{
    if ts.len() == 0 {
        Seq::empty()
    } else {
        concat_all(ts.drop_last()) + ts.last()
    }
}

/// Tokenizing never loses or reorders text: pasting the raw tokens back
/// together reproduces the template exactly, whatever it was.
pub proof fn lemma_tokenize_concat(s: Seq<char>)
    ensures
        concat_all(spec_tokenize(s)) == s,
    decreases s.len(),
{
    if s.len() == 0 {
        assert(concat_all(spec_tokenize(s)) =~= s);
    } else {
        lemma_tokenize_concat(s.drop_last());
        let acc = spec_tokenize(s.drop_last());
        let c = s.last();
        if spec_token_start(acc, c) {
            let acc2 = acc.push(seq![c]);
            assert(acc2.drop_last() =~= acc);
            assert(concat_all(acc2) == concat_all(acc) + seq![c]);
            assert(concat_all(acc) + seq![c] =~= s);
        } else {
            let acc2 = acc.update(acc.len() - 1, acc.last().push(c));
            assert(acc2.drop_last() =~= acc.drop_last());
            assert(acc2.last() == acc.last().push(c));
            assert(concat_all(acc2) == concat_all(acc.drop_last()) + acc.last().push(c));
            assert(concat_all(acc.drop_last()) + acc.last().push(c) =~= (concat_all(
                acc.drop_last(),
            ) + acc.last()) + seq![c]);
            assert(concat_all(acc) + seq![c] =~= s);
        }
    }
}

fn is_selector_exec(c: char) -> (r: bool)
    ensures
        r == is_selector(c),
{
    match c {
        '%' | 'f' | 'l' | 'c' | 'k' | 'm' | '.' | '*' => true,
        _ => false,
    }
}

fn is_known_placeholder(val: &str) -> (r: bool)
    ensures
        r == is_placeholder(val@),
{
    let n = val.unicode_len();
    if n != 2 {
        return false;
    }
    if val.get_char(0) != '%' {
        return false;
    }
    is_selector_exec(val.get_char(1))
}

/// Whether `c` begins a fresh raw token after what `acc` holds so far.
pub fn token_start(acc: &Vec<String>, c: char) -> (r: bool)
    ensures
        r == spec_token_start(acc.deep_view(), c),
{
    if acc.len() == 0 {
        return true;
    }
    let last: &String = &acc[acc.len() - 1];
    if c == '%' {
        let is_pct = last.as_str().unicode_len() == 1 && last.as_str().get_char(0) == '%';
        proof {
            if is_pct {
                assert(last@ =~= seq!['%']);
            } else {
                if last@ == seq!['%'] {
                    assert(last@.len() == 1 && last@[0] == '%');
                }
            }
            assert(acc.deep_view().last() == last@);
        }
        !is_pct
    } else {
        proof {
            assert(acc.deep_view().last() == last@);
        }
        is_known_placeholder(last.as_str())
    }
}

/// Split a template into raw tokens: placeholders and maximal literal
/// runs, in order, nothing lost.
pub fn tokenize(errfmt: String) -> (r: Vec<String>)
    ensures
        r.deep_view() == spec_tokenize(errfmt@),
{
    let s = errfmt.as_str();
    let len = s.unicode_len();
    let mut acc: Vec<String> = Vec::new();
    let mut i: usize = 0;
    proof {
        assert(acc.deep_view() =~= spec_tokenize(s@.take(0)));
    }
    while i < len
        invariant
            len == s@.len(),
            s@ == errfmt@,
            i <= len,
            acc.deep_view() == spec_tokenize(s@.take(i as int)),
        decreases len - i,
    {
        let ghost pre = acc.deep_view();
        let c = s.get_char(i);
        proof {
            assert(s@.take(i + 1).drop_last() =~= s@.take(i as int));
            assert(s@.take(i + 1).last() == c);
        }
        if token_start(&acc, c) {
            let mut t = String::new();
            push_char(&mut t, c);
            acc.push(t);
            proof {
                assert(acc.deep_view() =~~= pre.push(seq![c]));
            }
        } else {
            let mut t = acc.pop().unwrap();
            push_char(&mut t, c);
            acc.push(t);
            proof {
                assert(acc.deep_view() =~~= pre.update(pre.len() - 1, pre.last().push(c)));
            }
        }
        i = i + 1;
    }
    proof {
        assert(s@.take(len as int) =~= s@);
    }
    acc
}

} // verus!
