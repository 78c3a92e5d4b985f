//! Decimal text for the line and column fields: rendering a `u32` as its
//! digit string, and reading a captured digit string back as a `u32`.

use vstd::prelude::*;

use crate::engine::push_char;

verus! {

pub open spec fn is_digit(c: char) -> bool {
    ||| c == '0'
    ||| c == '1'
    ||| c == '2'
    ||| c == '3'
    ||| c == '4'
    ||| c == '5'
    ||| c == '6'
    ||| c == '7'
    ||| c == '8'
    ||| c == '9'
}

pub open spec fn digit_val(c: char) -> nat {
    if c == '0' {
        0
    } else if c == '1' {
        1
    } else if c == '2' {
        2
    } else if c == '3' {
        3
    } else if c == '4' {
        4
    } else if c == '5' {
        5
    } else if c == '6' {
        6
    } else if c == '7' {
        7
    } else if c == '8' {
        8
    } else {
        9
    }
}

pub open spec fn digit_char(d: nat) -> char {
    if d == 0 {
        '0'
    } else if d == 1 {
        '1'
    } else if d == 2 {
        '2'
    } else if d == 3 {
        '3'
    } else if d == 4 {
        '4'
    } else if d == 5 {
        '5'
    } else if d == 6 {
        '6'
    } else if d == 7 {
        '7'
    } else if d == 8 {
        '8'
    } else {
        '9'
    }
}

/// The decimal digit string of a number, most significant digit first.
pub open spec fn dec_rep(n: nat) -> Seq<char>
    decreases n,
{
    if n < 10 {
        seq![digit_char(n)]
    } else {
        dec_rep(n / 10).push(digit_char(n % 10))
    }
}

pub open spec fn all_digits(s: Seq<char>) -> bool {
    forall|i: int| 0 <= i < s.len() ==> is_digit(#[trigger] s[i])
}

/// The value of a digit string read in base ten.
pub open spec fn digits_val(s: Seq<char>) -> nat
    decreases s.len(),
{
    if s.len() == 0 {
        0
    } else {
        digits_val(s.drop_last()) * 10 + digit_val(s.last())
    }
}

/// What parsing a captured numeral yields: the value, when the text is a
/// non-empty run of digits whose value fits in a `u32`, and nothing
/// otherwise.
pub open spec fn spec_parse_u32(s: Seq<char>) -> Option<u32> {
    if s.len() > 0 && all_digits(s) && digits_val(s) <= u32::MAX {
        Some(digits_val(s) as u32)
    } else {
        None
    }
}

fn digit_char_exec(d: u32) -> (c: char)
    requires
        d < 10,
    ensures
        c == digit_char(d as nat),
{
    if d == 0 {
        '0'
    } else if d == 1 {
        '1'
    } else if d == 2 {
        '2'
    } else if d == 3 {
        '3'
    } else if d == 4 {
        '4'
    } else if d == 5 {
        '5'
    } else if d == 6 {
        '6'
    } else if d == 7 {
        '7'
    } else if d == 8 {
        '8'
    } else {
        '9'
    }
}

fn digit_of(c: char) -> (r: Option<u32>)
    ensures
        match r {
            Some(d) => is_digit(c) && d == digit_val(c) && d < 10,
            None => !is_digit(c),
        },
{
    match c {
        '0' => Some(0),
        '1' => Some(1),
        '2' => Some(2),
        '3' => Some(3),
        '4' => Some(4),
        '5' => Some(5),
        '6' => Some(6),
        '7' => Some(7),
        '8' => Some(8),
        '9' => Some(9),
        _ => None,
    }
}

/// Render a number as its decimal digit string.
pub fn u32_string(n: u32) -> (r: String)
    ensures
        r@ == dec_rep(n as nat),
{
    if n == 0 {
        let r = String::from_str("0");
        proof {
            reveal_strlit("0");
            assert(r@ =~= dec_rep(0));
        }
        return r;
    }
    let mut m: u32 = n;
    let mut rev: Vec<char> = Vec::new();
    while m > 0
        invariant
            m > 0 ==> dec_rep(n as nat) == dec_rep(m as nat) + rev@.reverse(),
            m == 0 ==> dec_rep(n as nat) == rev@.reverse(),
        decreases m,
    {
        let ghost m0 = m;
        let ghost rev0 = rev@;
        let d: u32 = m % 10;
        let c = digit_char_exec(d);
        rev.push(c);
        m = m / 10;
        proof {
            assert(rev@ =~= rev0.push(c));
            assert(rev@.reverse() =~= seq![c] + rev0.reverse());
            if m0 >= 10 {
                assert(dec_rep(m0 as nat) == dec_rep((m0 / 10) as nat).push(c));
                assert(dec_rep((m0 / 10) as nat).push(c) + rev0.reverse() =~= dec_rep(
                    (m0 / 10) as nat,
                ) + (seq![c] + rev0.reverse()));
                assert(dec_rep(n as nat) == dec_rep(m as nat) + rev@.reverse());
            } else {
                assert(dec_rep(m0 as nat) == seq![c]);
                assert(dec_rep(m0 as nat) + rev0.reverse() =~= seq![c] + rev0.reverse());
                assert(dec_rep(n as nat) == rev@.reverse());
            }
        }
    }
    let mut r = String::new();
    let mut i: usize = 0;
    while i < rev.len()
        invariant
            i <= rev@.len(),
            dec_rep(n as nat) == rev@.reverse(),
            r@ =~= rev@.reverse().take(i as int),
        decreases rev@.len() - i,
    {
        let idx = rev.len() - 1 - i;
        push_char(&mut r, rev[idx]);
        i = i + 1;
        proof {
            assert(r@ =~= rev@.reverse().take(i as int));
        }
    }
    proof {
        assert(rev@.reverse().take(rev@.len() as int) =~= rev@.reverse());
    }
    r
}

proof fn lemma_digits_val_mono(s: Seq<char>, i: int, j: int)
    requires
        0 <= i <= j <= s.len(),
    ensures
        digits_val(s.take(i)) <= digits_val(s.take(j)),
    decreases j - i,
{
    if i < j {
        lemma_digits_val_mono(s, i, j - 1);
        assert(s.take(j).drop_last() =~= s.take(j - 1));
        assert(digits_val(s.take(j)) == digits_val(s.take(j - 1)) * 10 + digit_val(
            s.take(j).last(),
        ));
    } else {
        assert(s.take(i) =~= s.take(j));
    }
}

/// Read a captured numeral. This mirrors `spec_parse_u32` exactly: it
/// succeeds on precisely the non-empty all-digit strings whose value fits.
pub fn parse_u32(s: &str) -> (r: Option<u32>)
    ensures
        r == spec_parse_u32(s@),
{
    let len = s.unicode_len();
    if len == 0 {
        return None;
    }
    let mut acc: u32 = 0;
    let mut i: usize = 0;
    while i < len
        invariant
            0 < len == s@.len(),
            i <= len,
            all_digits(s@.take(i as int)),
            acc == digits_val(s@.take(i as int)),
        decreases len - i,
    {
        let c = s.get_char(i);
        match digit_of(c) {
            None => {
                proof {
                    assert(!is_digit(s@[i as int]));
                }
                return None;
            },
            Some(d) => {
                proof {
                    assert(s@.take(i + 1).drop_last() =~= s@.take(i as int));
                    assert(s@.take(i + 1).last() == c);
                    assert(digits_val(s@.take(i + 1)) == acc * 10 + digit_val(c));
                    assert(all_digits(s@.take(i + 1)));
                }
                match acc.checked_mul(10) {
                    None => {
                        proof {
                            lemma_digits_val_mono(s@, i + 1, s@.len() as int);
                            assert(s@.take(s@.len() as int) =~= s@);
                            assert(digits_val(s@) > u32::MAX);
                        }
                        return None;
                    },
                    Some(x) => {
                        match x.checked_add(d) {
                            None => {
                                proof {
                                    lemma_digits_val_mono(s@, i + 1, s@.len() as int);
                                    assert(s@.take(s@.len() as int) =~= s@);
                                    assert(digits_val(s@) > u32::MAX);
                                }
                                return None;
                            },
                            Some(y) => {
                                acc = y;
                            },
                        }
                    },
                }
            },
        }
        i = i + 1;
    }
    proof {
        assert(s@.take(len as int) =~= s@);
    }
    Some(acc)
}

} // verus!
