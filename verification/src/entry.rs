//! The normalized record: a location with a severity and a message, plus
//! the severity vocabulary itself.

use vstd::prelude::*;

use crate::digits::dec_rep;
use crate::digits::u32_string;
use crate::engine::push_char;

verus! {

/// Severity of a diagnostic. The set of variants is purposely limited to
/// what the downstream editor integration understands.
#[derive(Clone, Copy, Debug, PartialEq, Eq, Structural)]
pub enum Kind {
    Warning,
    Error,
}

/// ASCII lower-casing of one character; anything outside `A`..`Z` is left
/// as it is.
pub open spec fn lower_char(c: char) -> char {
    match c {
        'A' => 'a',
        'B' => 'b',
        'C' => 'c',
        'D' => 'd',
        'E' => 'e',
        'F' => 'f',
        'G' => 'g',
        'H' => 'h',
        'I' => 'i',
        'J' => 'j',
        'K' => 'k',
        'L' => 'l',
        'M' => 'm',
        'N' => 'n',
        'O' => 'o',
        'P' => 'p',
        'Q' => 'q',
        'R' => 'r',
        'S' => 's',
        'T' => 't',
        'U' => 'u',
        'V' => 'v',
        'W' => 'w',
        'X' => 'x',
        'Y' => 'y',
        'Z' => 'z',
        _ => c,
    }
}

pub open spec fn lower_seq(s: Seq<char>) -> Seq<char> {
    s.map_values(|c: char| lower_char(c))
}

fn lower_char_exec(c: char) -> (r: char)
    ensures
        r == lower_char(c),
{
    match c {
        'A' => 'a',
        'B' => 'b',
        'C' => 'c',
        'D' => 'd',
        'E' => 'e',
        'F' => 'f',
        'G' => 'g',
        'H' => 'h',
        'I' => 'i',
        'J' => 'j',
        'K' => 'k',
        'L' => 'l',
        'M' => 'm',
        'N' => 'n',
        'O' => 'o',
        'P' => 'p',
        'Q' => 'q',
        'R' => 'r',
        'S' => 's',
        'T' => 't',
        'U' => 'u',
        'V' => 'v',
        'W' => 'w',
        'X' => 'x',
        'Y' => 'y',
        'Z' => 'z',
        _ => c,
    }
}

fn lower_string(s: &str) -> (r: String)
    ensures
        r@ == lower_seq(s@),
{
    let len = s.unicode_len();
    let mut r = String::new();
    let mut i: usize = 0;
    while i < len
        invariant
            len == s@.len(),
            i <= len,
            r@ =~= lower_seq(s@).take(i as int),
        decreases len - i,
    {
        let c = lower_char_exec(s.get_char(i));
        push_char(&mut r, c);
        i = i + 1;
        proof {
            assert(r@ =~= lower_seq(s@).take(i as int));
        }
    }
    proof {
        assert(lower_seq(s@).take(len as int) =~= lower_seq(s@));
    }
    r
}

/// The canonical word a severity is rendered as.
pub open spec fn kind_word(k: Kind) -> Seq<char> {
    match k {
        Kind::Warning => "warning"@,
        Kind::Error => "error"@,
    }
}

impl Kind {
    /// Read a severity word, case-insensitively. The vocabulary is closed
    /// on purpose: an unrecognized word is reported as an error rather than
    /// silently mapped to a guessed default.
    pub fn from(value: &str) -> (r: Result<Kind, String>)
        ensures
            match r {
                Ok(Kind::Warning) => lower_seq(value@) == "warning"@ || lower_seq(value@)
                    == "note"@,
                Ok(Kind::Error) => lower_seq(value@) == "error"@,
                Err(m) => lower_seq(value@) != "warning"@ && lower_seq(value@) != "note"@
                    && lower_seq(value@) != "error"@ && m@ == "unexpected kind: "@ + value@,
            },
    {
        let low = lower_string(value);
        if low == String::from_str("warning") || low == String::from_str("note") {
            Ok(Kind::Warning)
        } else if low == String::from_str("error") {
            Ok(Kind::Error)
        } else {
            let mut m = String::from_str("unexpected kind: ");
            m.append(value);
            Err(m)
        }
    }

    /// The canonical lowercase word for this severity.
    pub fn render(&self) -> (r: String)
        ensures
            r@ == kind_word(*self),
    {
        match self {
            Kind::Warning => String::from_str("warning"),
            Kind::Error => String::from_str("error"),
        }
    }
}

/// One normalized diagnostic record. The defaults are meaningful on their
/// own, so a partially specified template still produces usable output.
#[derive(Debug)]
pub struct Entry {
    pub file: String,
    pub line: u32,
    pub column: u32,
    pub kind: Kind,
    pub message: String,
}

/// How a record is rendered, from its field values. The shape
/// `file:line:column: kind: message` is a compatibility contract with the
/// downstream editor integration and must not change.
pub open spec fn render_fields(
    file: Seq<char>,
    line: u32,
    column: u32,
    kind: Kind,
    message: Seq<char>,
) -> Seq<char> {
    file + ":"@ + dec_rep(line as nat) + ":"@ + dec_rep(column as nat) + ": "@ + kind_word(kind)
        + ": "@ + message
}

impl Entry {
    /// A record with every field at its default.
    pub fn new() -> (e: Entry)
        ensures
            e.file@ == Seq::<char>::empty(),
            e.line == 1,
            e.column == 1,
            e.kind == Kind::Error,
            e.message@ == Seq::<char>::empty(),
    {
        Entry {
            file: String::new(),
            line: 1,
            column: 1,
            kind: Kind::Error,
            message: String::new(),
        }
    }

    /// Render the record in the fixed `file:line:column: kind: message`
    /// shape.
    pub fn render(&self) -> (r: String)
        ensures
            r@ == render_fields(self.file@, self.line, self.column, self.kind, self.message@),
    {
        let mut r = String::new();
        r.append(self.file.as_str());
        r.append(":");
        let line_s = u32_string(self.line);
        r.append(line_s.as_str());
        r.append(":");
        let column_s = u32_string(self.column);
        r.append(column_s.as_str());
        r.append(": ");
        let kind_s = self.kind.render();
        r.append(kind_s.as_str());
        r.append(": ");
        r.append(self.message.as_str());
        proof {
            assert(r@ =~= render_fields(
                self.file@,
                self.line,
                self.column,
                self.kind,
                self.message@,
            ));
        }
        r
    }
}

} // verus!
