//! Progress reports in the output of subprocesses, found by a regular
//! expression.
use crate::config::opt_view;
use crate::error::join2;
use crate::text::{trim, trim_str};
use crate::types::PipelineState;
use vstd::prelude::*;

verus! {

#[verifier::external_type_specification]
#[verifier::external_body]
pub struct ExRegex(regex::Regex);

#[verifier::external_type_specification]
#[verifier::external_body]
pub struct ExRegexError(regex::Error);

/// Whether `regex::Regex::new` accepts a pattern (valid syntax, within the
/// default size limits).
pub uninterp spec fn regex_accepts(pattern: Seq<char>) -> bool;

/// `regex::Regex::new`: compiles a pattern. The contract claims only that
/// it succeeds exactly for the patterns that `regex_accepts` names; what
/// the compiled expression matches is left to the crate.
#[verifier::external_body]
fn compile_regex(pattern: &str) -> (r: Result<regex::Regex, regex::Error>)
    ensures
        r is Ok <==> regex_accepts(pattern@),
{
    regex::Regex::new(pattern)
}

/// `Display` of `regex::Error`: the text of a compilation error. Nothing
/// is claimed of the text.
#[verifier::external_body]
fn regex_error_text(error: &regex::Error) -> String {
    error.to_string()
}

/// How a captured number is read.
#[derive(Debug, Clone, Copy, PartialEq, Eq, Structural)]
pub enum ProgressValue {
    Percent,
    Fraction,
}

/// Errors of building a progress parser.
#[derive(Debug)]
pub enum ProgressParserError {
    /// The pattern was refused; the text is the compiler's message.
    InvalidRegex(String),
    InvalidCaptureGroup,
}

pub open spec fn progress_parser_error_text(e: ProgressParserError) -> Seq<char> {
    match e {
        ProgressParserError::InvalidRegex(t) => "neplatný progress regex: "@ + t@,
        ProgressParserError::InvalidCaptureGroup => "capture group pre progress hodnotu musí byť väčšia ako nula"@,
    }
}

impl ProgressParserError {
    pub fn message(&self) -> (s: String)
        ensures
            s@ == progress_parser_error_text(*self),
    {
        match self {
            ProgressParserError::InvalidRegex(t) => join2("neplatný progress regex: ", t.as_str()),
            ProgressParserError::InvalidCaptureGroup => String::from_str(
                "capture group pre progress hodnotu musí byť väčšia ako nula",
            ),
        }
    }
}

pub open spec fn percentage_pattern() -> Seq<char> {
    "(?i)(?:progress|percent|completed?|step)[^0-9]*([0-9]{1,3}(?:\\.[0-9]+)?)\\s*%"@
}

pub open spec fn fraction_pattern() -> Seq<char> {
    "(?i)(?:progress|fraction|ratio)[^0-9]*((?:0?\\.)?[0-9]+)"@
}

/// The text of capture group `group` in the first match, leftmost-first,
/// of the expression that `regex::Regex::new` compiles from `pattern`, in
/// `line`; `None` where the expression does not match the line or the
/// group takes no part in the match.
pub uninterp spec fn regex_group(pattern: Seq<char>, line: Seq<char>, group: nat) -> Option<Seq<char>>;

/// `regex::Regex::captures`, then `Captures::get` of the parser's value
/// group: the text that group captured in `line`, as `regex_group` names
/// it for the parser's pattern. The claim rests on the parser's compiled
/// expression being the one `Regex::new` made from its pattern: the only
/// parser that exists is one `ProgressParser::new` built that way (the
/// fields are private), and `Clone` copies both.
#[verifier::external_body]
fn captured_text(parser: &ProgressParser, line: &str) -> (r: Option<String>)
    ensures
        opt_view(r) == regex_group(parser.pattern_of(), line@, parser.group_of() as nat),
{
    parser.regex.captures(line).and_then(|c| c.get(parser.value_group)).map(|m| m.as_str().to_string())
}

/// `Clone` of `regex::Regex`: a copy of the compiled expression.
#[verifier::external_body]
fn clone_regex(regex: &regex::Regex) -> regex::Regex {
    regex.clone()
}

/// What a line reports, given the text its value group captured: that text
/// and the trimmed line, or nothing where nothing was captured.
pub open spec fn progress_from_capture(captured: Option<Seq<char>>, line: Seq<char>) -> Option<(Seq<char>, Seq<char>)> {
    match captured {
        Some(v) => Some((v, trim(line))),
        None => None,
    }
}

pub open spec fn pair_view(r: Option<(String, String)>) -> Option<(Seq<char>, Seq<char>)> {
    match r {
        Some((v, m)) => Some((v@, m@)),
        None => None,
    }
}

/// The progress text of a line, from what the value group captured in it.
pub fn progress_of_capture(captured: Option<String>, line: &str) -> (r: Option<(String, String)>)
    ensures
        pair_view(r) == progress_from_capture(opt_view(captured), line@),
{
    match captured {
        Some(v) => Some((v, trim_str(line))),
        None => None,
    }
}

/// Parser of progress lines in a subprocess's stdout or stderr.
#[derive(Debug)]
pub struct ProgressParser {
    state: PipelineState,
    pattern: String,
    regex: regex::Regex,
    value_group: usize,
    value_kind: ProgressValue,
}

impl Clone for ProgressParser {
    fn clone(&self) -> (r: Self)
        ensures
            r.state_of() == self.state_of(),
            r.group_of() == self.group_of(),
            r.kind_of() == self.kind_of(),
            r.pattern_of() == self.pattern_of(),
    {
        proof {
            use_type_invariant(self);
        }
        ProgressParser {
            state: self.state,
            pattern: self.pattern.clone(),
            regex: clone_regex(&self.regex),
            value_group: self.value_group,
            value_kind: self.value_kind,
        }
    }
}

impl ProgressParser {
    pub closed spec fn state_of(&self) -> PipelineState {
        self.state
    }

    pub closed spec fn group_of(&self) -> usize {
        self.value_group
    }

    pub closed spec fn kind_of(&self) -> ProgressValue {
        self.value_kind
    }

    /// The pattern the parser's expression was compiled from.
    pub closed spec fn pattern_of(&self) -> Seq<char> {
        self.pattern@
    }

    /// The compiled expression that the parser holds.
    pub closed spec fn regex_of(&self) -> regex::Regex {
        self.regex
    }

    #[verifier::type_invariant]
    closed spec fn inv(&self) -> bool {
        self.value_group > 0
    }

    /// A parser for a pattern whose capture group `value_group` holds the
    /// progress number.
    pub fn new(state: PipelineState, pattern: &str, value_group: usize, value_kind: ProgressValue) -> (r:
        Result<Self, ProgressParserError>)
        ensures
            value_group == 0 ==> r matches Err(ProgressParserError::InvalidCaptureGroup),
            value_group > 0 ==> (r is Ok <==> regex_accepts(pattern@)),
            value_group > 0 && !regex_accepts(pattern@) ==> r matches Err(
                ProgressParserError::InvalidRegex(_),
            ),
            r matches Ok(p) ==> p.state_of() == state && p.group_of() == value_group && p.kind_of()
                == value_kind && p.pattern_of() == pattern@,
    {
        if value_group == 0 {
            return Err(ProgressParserError::InvalidCaptureGroup);
        }
        match compile_regex(pattern) {
            Ok(regex) => Ok(
                ProgressParser {
                    state,
                    pattern: String::from_str(pattern),
                    regex,
                    value_group,
                    value_kind,
                },
            ),
            Err(error) => Err(ProgressParserError::InvalidRegex(regex_error_text(&error))),
        }
    }

    /// Parser of the usual form, such as `progress: 42.5%` or `completed 80%`.
    pub fn percentage(state: PipelineState) -> (r: Result<Self, ProgressParserError>)
        ensures
            r is Ok <==> regex_accepts(percentage_pattern()),
            r is Err ==> r matches Err(ProgressParserError::InvalidRegex(_)),
            r matches Ok(p) ==> p.state_of() == state && p.group_of() == 1 && p.kind_of()
                == ProgressValue::Percent && p.pattern_of() == percentage_pattern(),
    {
        Self::new(
            state,
            "(?i)(?:progress|percent|completed?|step)[^0-9]*([0-9]{1,3}(?:\\.[0-9]+)?)\\s*%",
            1,
            ProgressValue::Percent,
        )
    }

    /// Parser for tools that report a normalised progress `0.0..1.0`.
    pub fn fraction(state: PipelineState) -> (r: Result<Self, ProgressParserError>)
        ensures
            r is Ok <==> regex_accepts(fraction_pattern()),
            r is Err ==> r matches Err(ProgressParserError::InvalidRegex(_)),
            r matches Ok(p) ==> p.state_of() == state && p.group_of() == 1 && p.kind_of()
                == ProgressValue::Fraction && p.pattern_of() == fraction_pattern(),
    {
        Self::new(
            state,
            "(?i)(?:progress|fraction|ratio)[^0-9]*((?:0?\\.)?[0-9]+)",
            1,
            ProgressValue::Fraction,
        )
    }

    pub fn state(&self) -> (s: PipelineState)
        ensures
            s == self.state_of(),
    {
        self.state
    }

    /// The compiled expression: the parser's own, not a copy.
    pub fn regex(&self) -> (r: &regex::Regex)
        ensures
            *r == self.regex_of(),
    {
        &self.regex
    }

    pub fn value_group(&self) -> (g: usize)
        ensures
            g == self.group_of(),
            g > 0,
    {
        proof {
            use_type_invariant(self);
        }
        self.value_group
    }

    pub fn value_kind(&self) -> (k: ProgressValue)
        ensures
            k == self.kind_of(),
    {
        self.value_kind
    }

    /// The text of the progress value that the parser's pattern captures
    /// in `line`, with the line trimmed as the message; `None` where the
    /// pattern does not match or its value group takes no part.
    pub fn progress_text(&self, line: &str) -> (r: Option<(String, String)>)
        ensures
            pair_view(r) == progress_from_capture(
                regex_group(self.pattern_of(), line@, self.group_of() as nat),
                line@,
            ),
    {
        let captured = captured_text(self, line);
        progress_of_capture(captured, line)
    }
}

} // verus!
