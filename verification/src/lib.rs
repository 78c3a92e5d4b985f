//! Re-shape free-form diagnostic output into `file:line:column: kind: message`
//! records, guided by an errorformat template string.
//!
//! A template is a string of placeholders and literal text:
//!
//! - `%f`: filename
//! - `%l`: line number
//! - `%c`: column number
//! - `%k`: error kind (warning or error)
//! - `%m`: error message
//! - `%.`: sequence of whitespace characters (including new lines)
//! - `%*`: anything, matched lazily within one line
//! - every other sequence is treated as literal text.
//!
//! The template is tokenized, each token becomes one capture group of a
//! single pattern, and every match of that pattern against the input
//! yields one normalized record, built by walking the tokens in order
//! against the match's capture groups.
//!
//! An error while building one record stops the whole parse and is
//! reported; this library prefers that strict policy over skipping the
//! record, so a malformed severity word is never silently dropped.

use vstd::prelude::*;

pub mod digits;
pub mod engine;
pub mod entry;
pub mod errfmt;
pub mod shape;
pub mod token;

pub use crate::errfmt::ESLINT_ERRFMT;
pub use crate::errfmt::GOLINT_ERRFMT;
pub use crate::errfmt::PASSTHROUGH_ERRFMT;
pub use crate::errfmt::PHP_ERRFMT;
pub use crate::errfmt::RUSTFMT_ERRFMT;
pub use crate::errfmt::SHELLCHECK_ERRFMT;

use crate::digits::parse_u32;
use crate::digits::spec_parse_u32;
use crate::engine::all_captures;
use crate::engine::captures_found;
use crate::engine::compile_pattern;
use crate::engine::compiles;
use crate::engine::pattern_held;
use crate::entry::lower_seq;
use crate::entry::render_fields;
use crate::entry::Entry;
use crate::entry::Kind;
use crate::errfmt::spec_tokenize;
use crate::errfmt::tokenize;
use crate::shape::lemma_pattern_of_raws;
use crate::shape::pattern_of_raws;
use crate::shape::spec_pattern;
use crate::shape::Shape;
use crate::token::matches_raw;
use crate::token::tokens_match;
use crate::token::Token;

verus! {

/// Ceiling on the compiled size of a pattern. The pattern text comes from
/// untrusted user input, so its compiled form must be bounded.
pub const REGEX_MAX_SIZE: usize = 128 * 1024;

/// The five fields of a record while it is being built: file, line,
/// column, kind, message.
pub type RecordFields = (Seq<char>, u32, u32, Kind, Seq<char>);

/// The capture group of token `i`, `None` when it is absent or did not
/// participate in the match.
pub open spec fn group_at(gs: Seq<Option<Seq<char>>>, i: int) -> Option<Seq<char>> {
    if 0 <= i < gs.len() {
        gs[i]
    } else {
        None
    }
}

pub open spec fn missing_group_msg() -> Seq<char> {
    "a bound placeholder captured nothing"@
}

pub open spec fn bad_number_msg() -> Seq<char> {
    "captured text is not a line or column number"@
}

/// The default field values a record starts from.
pub open spec fn initial_fields() -> RecordFields {
    (Seq::<char>::empty(), 1u32, 1u32, Kind::Error, Seq::<char>::empty())
}

/// How one token updates the record fields, given its capture group.
/// Bound tokens write their field; unbound tokens change nothing but
/// still hold their group slot. A non-empty file override wins over
/// whatever a file token captured. Line and column are positive: a
/// captured numeral that is zero or does not fit is a local extraction
/// failure, like a non-numeral.
pub open spec fn apply_token(
    f: RecordFields,
    t: Token,
    g: Option<Seq<char>>,
    file_override: Seq<char>,
) -> Result<RecordFields, Seq<char>> {
    match t {
        Token::File => {
            if file_override.len() > 0 {
                Ok(f)
            } else {
                match g {
                    Some(v) => Ok((v, f.1, f.2, f.3, f.4)),
                    None => Err(missing_group_msg()),
                }
            }
        },
        Token::Line => {
            match g {
                Some(v) => match spec_parse_u32(v) {
                    Some(n) => if n >= 1 {
                        Ok((f.0, n, f.2, f.3, f.4))
                    } else {
                        Err(bad_number_msg())
                    },
                    None => Err(bad_number_msg()),
                },
                None => Err(missing_group_msg()),
            }
        },
        Token::Column => {
            match g {
                Some(v) => match spec_parse_u32(v) {
                    Some(n) => if n >= 1 {
                        Ok((f.0, f.1, n, f.3, f.4))
                    } else {
                        Err(bad_number_msg())
                    },
                    None => Err(bad_number_msg()),
                },
                None => Err(missing_group_msg()),
            }
        },
        Token::Kind => {
            match g {
                Some(v) => {
                    if lower_seq(v) == "warning"@ || lower_seq(v) == "note"@ {
                        Ok((f.0, f.1, f.2, Kind::Warning, f.4))
                    } else if lower_seq(v) == "error"@ {
                        Ok((f.0, f.1, f.2, Kind::Error, f.4))
                    } else {
                        Err("unexpected kind: "@ + v)
                    }
                },
                None => Err(missing_group_msg()),
            }
        },
        Token::Message => {
            match g {
                Some(v) => Ok((f.0, f.1, f.2, f.3, v)),
                None => Err(missing_group_msg()),
            }
        },
        Token::Whitespace | Token::Wildcard | Token::Literal(_) => Ok(f),
    }
}

/// Walking the tokens from position `i` on, updating the fields, stopping
/// at the first failure.
pub open spec fn fold_from(
    ts: Seq<Token>,
    gs: Seq<Option<Seq<char>>>,
    file_override: Seq<char>,
    i: int,
    acc: RecordFields,
) -> Result<RecordFields, Seq<char>>
    decreases ts.len() - i,
{
    if i < 0 || i >= ts.len() {
        Ok(acc)
    } else {
        match apply_token(acc, ts[i], group_at(gs, i), file_override) {
            Ok(acc2) => fold_from(ts, gs, file_override, i + 1, acc2),
            Err(m) => Err(m),
        }
    }
}

/// A non-empty file override replaces the file field unconditionally,
/// whether or not any file token wrote it.
pub open spec fn apply_override(f: RecordFields, file_override: Seq<char>) -> RecordFields {
    if file_override.len() > 0 {
        (file_override, f.1, f.2, f.3, f.4)
    } else {
        f
    }
}

/// One record from one match: defaults, then the token walk, then the
/// file override.
pub open spec fn spec_record(
    ts: Seq<Token>,
    gs: Seq<Option<Seq<char>>>,
    file_override: Seq<char>,
) -> Result<RecordFields, Seq<char>> {
    match fold_from(ts, gs, file_override, 0, initial_fields()) {
        Ok(f) => Ok(apply_override(f, file_override)),
        Err(m) => Err(m),
    }
}

/// All records from the matches at position `i` on, in input order,
/// stopping at the first failing record.
pub open spec fn records_from(
    ts: Seq<Token>,
    caps: Seq<Seq<Option<Seq<char>>>>,
    file_override: Seq<char>,
    i: int,
) -> Result<Seq<RecordFields>, Seq<char>>
    decreases caps.len() - i,
{
    if i < 0 || i >= caps.len() {
        Ok(Seq::empty())
    } else {
        match spec_record(ts, caps[i], file_override) {
            Err(m) => Err(m),
            Ok(f) => match records_from(ts, caps, file_override, i + 1) {
                Err(m) => Err(m),
                Ok(rest) => Ok(seq![f] + rest),
            },
        }
    }
}

/// Everything a parse of the given input yields: one record per match of
/// the compiled pattern. An empty template compiles but matches nothing,
/// so it produces zero records by design.
pub open spec fn spec_records(ts: Seq<Token>, input: Seq<char>, file_override: Seq<char>) -> Result<
    Seq<RecordFields>,
    Seq<char>,
> {
    if ts.len() == 0 {
        Ok(Seq::empty())
    } else {
        records_from(ts, captures_found(spec_pattern(ts), input), file_override, 0)
    }
}

pub open spec fn fields_of(e: Entry) -> RecordFields {
    (e.file@, e.line, e.column, e.kind, e.message@)
}

pub open spec fn models_of(es: Seq<Entry>) -> Seq<RecordFields> {
    Seq::new(es.len(), |j: int| fields_of(es[j]))
}

/// How a finished record renders.
pub open spec fn render_record(f: RecordFields) -> Seq<char> {
    render_fields(f.0, f.1, f.2, f.3, f.4)
}

/// Fetch the capture of token `i`, if the match has one.
fn read_group(groups: &Vec<Option<String>>, i: usize) -> (r: Option<String>)
    ensures
        match r {
            Some(s) => group_at(groups.deep_view(), i as int) == Some(s@),
            None => group_at(groups.deep_view(), i as int) is None,
        },
{
    if i < groups.len() {
        match &groups[i] {
            Some(s) => Some(s.clone()),
            None => None,
        }
    } else {
        None
    }
}

/// Build one record from one match by walking the tokens in order against
/// the capture groups in the same order.
fn build_record(tokens: &Vec<Token>, groups: &Vec<Option<String>>, file_override: &String) -> (r:
    Result<Entry, String>)
    ensures
        match r {
            Ok(e) => spec_record(tokens@, groups.deep_view(), file_override@) matches Ok(f)
                && fields_of(e) == f,
            Err(m) => spec_record(tokens@, groups.deep_view(), file_override@) matches Err(em)
                && m@ == em,
        },
{
    let ghost ts = tokens@;
    let ghost gs = groups.deep_view();
    let ghost fo = file_override@;
    let mut e = Entry::new();
    proof {
        assert(fields_of(e) == initial_fields());
    }
    let n = tokens.len();
    let mut i: usize = 0;
    while i < n
        invariant
            n == ts.len(),
            i <= n,
            ts == tokens@,
            gs == groups.deep_view(),
            fo == file_override@,
            fold_from(ts, gs, fo, 0, initial_fields()) == fold_from(ts, gs, fo, i as int, fields_of(e)),
        decreases n - i,
    {
        let ghost pre = fields_of(e);
        proof {
            reveal_strlit("warning");
            reveal_strlit("note");
            reveal_strlit("error");
        }
        match &tokens[i] {
            Token::File => {
                if !file_override.as_str().is_empty() {
                    // the override wins; the captured text is ignored
                } else {
                    match read_group(groups, i) {
                        Some(v) => {
                            e.file = v;
                        },
                        None => {
                            return Err(String::from_str("a bound placeholder captured nothing"));
                        },
                    }
                }
            },
            Token::Line => {
                match read_group(groups, i) {
                    Some(v) => {
                        match parse_u32(v.as_str()) {
                            Some(x) => {
                                if x >= 1 {
                                    e.line = x;
                                } else {
                                    return Err(
                                        String::from_str(
                                            "captured text is not a line or column number",
                                        ),
                                    );
                                }
                            },
                            None => {
                                return Err(
                                    String::from_str(
                                        "captured text is not a line or column number",
                                    ),
                                );
                            },
                        }
                    },
                    None => {
                        return Err(String::from_str("a bound placeholder captured nothing"));
                    },
                }
            },
            Token::Column => {
                match read_group(groups, i) {
                    Some(v) => {
                        match parse_u32(v.as_str()) {
                            Some(x) => {
                                if x >= 1 {
                                    e.column = x;
                                } else {
                                    return Err(
                                        String::from_str(
                                            "captured text is not a line or column number",
                                        ),
                                    );
                                }
                            },
                            None => {
                                return Err(
                                    String::from_str(
                                        "captured text is not a line or column number",
                                    ),
                                );
                            },
                        }
                    },
                    None => {
                        return Err(String::from_str("a bound placeholder captured nothing"));
                    },
                }
            },
            Token::Kind => {
                match read_group(groups, i) {
                    Some(v) => {
                        match Kind::from(v.as_str()) {
                            Ok(k) => {
                                e.kind = k;
                                proof {
                                    // the word was recognized, and the revealed words
                                    // differ, so the variant is determined
                                    assert(lower_seq(v@) == "warning"@ || lower_seq(v@) == "note"@
                                        || lower_seq(v@) == "error"@);
                                    if lower_seq(v@) == "warning"@ || lower_seq(v@) == "note"@ {
                                        assert(lower_seq(v@) != "error"@);
                                        assert(k == Kind::Warning);
                                    } else {
                                        assert(k == Kind::Error);
                                    }
                                }
                            },
                            Err(m) => {
                                return Err(m);
                            },
                        }
                    },
                    None => {
                        return Err(String::from_str("a bound placeholder captured nothing"));
                    },
                }
            },
            Token::Message => {
                match read_group(groups, i) {
                    Some(v) => {
                        e.message = v;
                    },
                    None => {
                        return Err(String::from_str("a bound placeholder captured nothing"));
                    },
                }
            },
            Token::Whitespace | Token::Wildcard | Token::Literal(_) => {},
        }
        proof {
            assert(apply_token(pre, ts[i as int], group_at(gs, i as int), fo) == Ok::<
                RecordFields,
                Seq<char>,
            >(fields_of(e)));
        }
        i = i + 1;
    }
    if !file_override.as_str().is_empty() {
        e.file = file_override.clone();
    }
    Ok(e)
}

/// Builds a set of records from the error messages the input holds,
/// according to the template it was constructed from.
pub struct Parser {
    pub shape: Shape,
    pub file: String,
    pub re: regex::Regex,
}

impl Parser {
    /// The compiled pattern this parser holds is the one its shape
    /// describes.
    pub closed spec fn wf(&self) -> bool {
        pattern_held(self.re) == spec_pattern(self.shape.0@)
    }

    /// Read the template: tokenize it, compute the shape of an error
    /// message, and compile the pattern eagerly, so that a bad template
    /// fails here, before any input is read. It fails exactly when the
    /// template's pattern does not compile under the size ceiling.
    pub fn new(errfmt: String, file: String) -> (r: Result<Parser, String>)
        ensures
            r matches Ok(p) ==> tokens_match(p.shape.0@, spec_tokenize(errfmt@)) && p.file@
                == file@ && p.wf(),
            r is Ok <==> compiles(
                pattern_of_raws(spec_tokenize(errfmt@)),
                REGEX_MAX_SIZE as nat,
            ),
    {
        let ghost fmtv = errfmt@;
        let raws = tokenize(errfmt);
        let mut shape = Shape::new();
        let mut i: usize = 0;
        while i < raws.len()
            invariant
                raws.deep_view() == spec_tokenize(fmtv),
                i <= raws@.len(),
                shape.0@.len() == i,
                forall|j: int|
                    0 <= j < i ==> matches_raw(#[trigger] shape.0@[j], raws.deep_view()[j]),
            decreases raws@.len() - i,
        {
            let t = Token::from(raws[i].as_str());
            shape = shape.push(t);
            i = i + 1;
        }
        let pattern = shape.to_pattern();
        proof {
            assert(tokens_match(shape.0@, raws.deep_view()));
            lemma_pattern_of_raws(shape.0@, raws.deep_view());
        }
        match compile_pattern(pattern.as_str(), REGEX_MAX_SIZE) {
            Ok(re) => Ok(Parser { shape, file, re }),
            Err(m) => Err(m),
        }
    }

    /// Gather one record per match of the pattern against the input, in
    /// input order. No match is a normal outcome, not an error; a record
    /// that cannot be built (an unrecognized severity word, a numeral
    /// that does not fit) stops the parse with that record's error.
    pub fn parse(&self, input: String) -> (r: Result<Vec<Entry>, String>)
        requires
            self.wf(),
        ensures
            match r {
                Ok(es) => spec_records(self.shape.0@, input@, self.file@) matches Ok(ms)
                    && es@.len() == ms.len() && forall|j: int|
                    0 <= j < ms.len() ==> fields_of(#[trigger] es@[j]) == ms[j],
                Err(m) => spec_records(self.shape.0@, input@, self.file@) matches Err(em) && m@
                    == em,
            },
    {
        let ghost ts = self.shape.0@;
        let ghost fo = self.file@;
        if self.shape.0.len() == 0 {
            let out: Vec<Entry> = Vec::new();
            return Ok(out);
        }
        let caps = all_captures(&self.re, input.as_str());
        let ghost capsd = caps.deep_view();
        proof {
            assert(capsd == captures_found(spec_pattern(ts), input@));
        }
        let mut out: Vec<Entry> = Vec::new();
        let mut i: usize = 0;
        proof {
            if records_from(ts, capsd, fo, 0) is Ok {
                assert(models_of(out@) + records_from(ts, capsd, fo, 0)->Ok_0 =~= records_from(
                    ts,
                    capsd,
                    fo,
                    0,
                )->Ok_0);
            }
        }
        while i < caps.len()
            invariant
                capsd == caps.deep_view(),
                ts == self.shape.0@,
                fo == self.file@,
                ts.len() > 0,
                capsd == captures_found(spec_pattern(ts), input@),
                i <= capsd.len(),
                out@.len() == i,
                records_from(ts, capsd, fo, 0) == match records_from(ts, capsd, fo, i as int) {
                    Ok(rest) => Ok::<Seq<RecordFields>, Seq<char>>(models_of(out@) + rest),
                    Err(m) => Err::<Seq<RecordFields>, Seq<char>>(m),
                },
            decreases capsd.len() - i,
        {
            let ghost pre = out@;
            match build_record(&self.shape.0, &caps[i], &self.file) {
                Err(m) => {
                    proof {
                        assert(records_from(ts, capsd, fo, i as int) == Err::<
                            Seq<RecordFields>,
                            Seq<char>,
                        >(m@));
                    }
                    return Err(m);
                },
                Ok(e) => {
                    let ghost f = fields_of(e);
                    out.push(e);
                    i = i + 1;
                    proof {
                        assert(models_of(out@) =~= models_of(pre).push(f));
                        if records_from(ts, capsd, fo, i as int) is Ok {
                            let rest = records_from(ts, capsd, fo, i as int)->Ok_0;
                            assert(models_of(pre) + (seq![f] + rest) =~= models_of(out@) + rest);
                        }
                    }
                },
            }
        }
        proof {
            assert(records_from(ts, capsd, fo, i as int) == Ok::<Seq<RecordFields>, Seq<char>>(
                Seq::empty(),
            ));
            assert(models_of(out@) + Seq::<RecordFields>::empty() =~= models_of(out@));
        }
        Ok(out)
    }
}

/// The sole entry point: normalize every diagnostic in `input` that the
/// `errfmt` template describes, rendering each record as
/// `file:line:column: kind: message`. A non-empty `file` replaces every
/// record's file field. It succeeds exactly when the template's pattern
/// compiles under the size ceiling and every matched record builds; a
/// template that cannot be compiled, and a record that cannot be built,
/// are reported as an error.
pub fn run(input: String, errfmt: String, file: String) -> (r: Result<Vec<String>, String>)
    ensures
        r matches Ok(lines) ==> exists|ts: Seq<Token>|
            {
                &&& #[trigger] tokens_match(ts, spec_tokenize(errfmt@))
                &&& spec_records(ts, input@, file@) matches Ok(ms)
                &&& lines.deep_view() == ms.map_values(|f: RecordFields| render_record(f))
            },
        forall|ts: Seq<Token>|
            #[trigger] tokens_match(ts, spec_tokenize(errfmt@)) && spec_records(
                ts,
                input@,
                file@,
            ) is Err ==> r is Err,
        r is Ok <==> compiles(pattern_of_raws(spec_tokenize(errfmt@)), REGEX_MAX_SIZE as nat)
            && exists|ts: Seq<Token>|
            #[trigger] tokens_match(ts, spec_tokenize(errfmt@)) && spec_records(
                ts,
                input@,
                file@,
            ) is Ok,
{
    let ghost fmtv = errfmt@;
    let ghost filev = file@;
    let ghost inputv = input@;
    match Parser::new(errfmt, file) {
        Err(m) => Err(m),
        Ok(p) => {
            let ghost tsp = p.shape.0@;
            match p.parse(input) {
                Err(m) => {
                    proof {
                        assert forall|ts2: Seq<Token>|
                            tokens_match(ts2, spec_tokenize(fmtv)) implies !(spec_records(
                            ts2,
                            inputv,
                            filev,
                        ) is Ok) by {
                            lemma_records_deterministic(
                                tsp,
                                ts2,
                                spec_tokenize(fmtv),
                                inputv,
                                filev,
                            );
                        }
                    }
                    Err(m)
                },
                Ok(es) => {
                    let ghost ms = spec_records(tsp, inputv, filev)->Ok_0;
                    let mut lines: Vec<String> = Vec::new();
                    let mut i: usize = 0;
                    while i < es.len()
                        invariant
                            es@.len() == ms.len(),
                            forall|j: int|
                                0 <= j < ms.len() ==> fields_of(#[trigger] es@[j]) == ms[j],
                            i <= ms.len(),
                            lines@.len() == i,
                            forall|j: int|
                                0 <= j < i ==> (#[trigger] lines@[j])@ == render_record(ms[j]),
                        decreases es@.len() - i,
                    {
                        let line = es[i].render();
                        lines.push(line);
                        i = i + 1;
                    }
                    proof {
                        assert(lines.deep_view() =~= ms.map_values(
                            |f: RecordFields| render_record(f),
                        ));
                        assert(tokens_match(tsp, spec_tokenize(fmtv)) && spec_records(
                            tsp,
                            inputv,
                            filev,
                        ) is Ok);
                        assert forall|ts2: Seq<Token>|
                            tokens_match(ts2, spec_tokenize(fmtv)) implies spec_records(
                            ts2,
                            inputv,
                            filev,
                        ) is Ok by {
                            lemma_records_deterministic(
                                tsp,
                                ts2,
                                spec_tokenize(fmtv),
                                inputv,
                                filev,
                            );
                        }
                    }
                    Ok(lines)
                },
            }
        },
    }
}

/// Two token sequences that map the same raw token behave the same: the
/// raw pins the variant, and a literal's behavior depends only on its
/// text.
proof fn lemma_token_determined(
    t1: Token,
    t2: Token,
    raw: Seq<char>,
    f: RecordFields,
    g: Option<Seq<char>>,
    fo: Seq<char>,
)
    requires
        matches_raw(t1, raw),
        matches_raw(t2, raw),
    ensures
        apply_token(f, t1, g, fo) == apply_token(f, t2, g, fo),
{
}

/// Matching token sequences fold a match's groups identically.
proof fn lemma_fold_determined(
    ts1: Seq<Token>,
    ts2: Seq<Token>,
    raws: Seq<Seq<char>>,
    gs: Seq<Option<Seq<char>>>,
    fo: Seq<char>,
    i: int,
    acc: RecordFields,
)
    requires
        tokens_match(ts1, raws),
        tokens_match(ts2, raws),
        0 <= i,
    ensures
        fold_from(ts1, gs, fo, i, acc) == fold_from(ts2, gs, fo, i, acc),
    decreases ts1.len() - i,
{
    if i < ts1.len() {
        lemma_token_determined(ts1[i], ts2[i], raws[i], acc, group_at(gs, i), fo);
        match apply_token(acc, ts1[i], group_at(gs, i), fo) {
            Ok(acc2) => {
                lemma_fold_determined(ts1, ts2, raws, gs, fo, i + 1, acc2);
            },
            Err(_) => {},
        }
    }
}

/// Matching token sequences turn the same matches into the same records.
proof fn lemma_records_from_determined(
    ts1: Seq<Token>,
    ts2: Seq<Token>,
    raws: Seq<Seq<char>>,
    caps: Seq<Seq<Option<Seq<char>>>>,
    fo: Seq<char>,
    i: int,
)
    requires
        tokens_match(ts1, raws),
        tokens_match(ts2, raws),
        0 <= i,
    ensures
        records_from(ts1, caps, fo, i) == records_from(ts2, caps, fo, i),
    decreases caps.len() - i,
{
    if i < caps.len() {
        lemma_fold_determined(ts1, ts2, raws, caps[i], fo, 0, initial_fields());
        lemma_records_from_determined(ts1, ts2, raws, caps, fo, i + 1);
    }
}

/// What a template means does not depend on which token values stand for
/// its raw tokens: any two token sequences that map the same raw tokens
/// produce the same records on every input and file override.
pub proof fn lemma_records_deterministic(
    ts1: Seq<Token>,
    ts2: Seq<Token>,
    raws: Seq<Seq<char>>,
    input: Seq<char>,
    fo: Seq<char>,
)
    requires
        tokens_match(ts1, raws),
        tokens_match(ts2, raws),
    ensures
        spec_records(ts1, input, fo) == spec_records(ts2, input, fo),
{
    if ts1.len() > 0 {
        lemma_pattern_of_raws(ts1, raws);
        lemma_pattern_of_raws(ts2, raws);
        lemma_records_from_determined(
            ts1,
            ts2,
            raws,
            captures_found(spec_pattern(ts1), input),
            fo,
            0,
        );
    }
}

} // verus!

