//! Response correlation and classification: scan received lines for the
//! player's error indicator, parse the matching line as JSON, and map its
//! top-level `error` field to a typed outcome.

use vstd::prelude::*;
use crate::errors::{ErrorCode, ErrorCodeView, outcome_view};
use crate::text::str_eq_str;

verus! {

/// The marker substring whose presence makes a received line a candidate
/// acknowledgement: the quoted `error` key followed by its colon. The test
/// is textual, so a line carrying the marker only inside some string value
/// still ends the read loop and is then classified by its own JSON parse.
pub open spec fn marker() -> Seq<char> {
    seq!['"', 'e', 'r', 'r', 'o', 'r', '"', ':']
}

/// The marker occurs in `s` at position `i`.
pub open spec fn marker_at(s: Seq<char>, i: int) -> bool {
    0 <= i && i + 8 <= s.len() && s.subrange(i, i + 8) == marker()
}

/// The marker occurs somewhere in `s`.
pub open spec fn has_marker(s: Seq<char>) -> bool {
    exists|i: int| marker_at(s, i)
}

/// Whether the eight characters of `line` starting at `i` are the marker.
fn marker_match_at(line: &str, m: &str, i: usize) -> (r: bool)
    requires
        m@ == marker(),
        i + 8 <= line@.len(),
        line@.len() <= usize::MAX,
    ensures
        r == marker_at(line@, i as int),
{
    let mut j: usize = 0;
    while j < 8
        invariant
            m@ == marker(),
            i + 8 <= line@.len(),
            line@.len() <= usize::MAX,
            j <= 8,
            forall|l: int| 0 <= l < j ==> line@[i + l] == marker()[l],
        decreases 8 - j,
    {
        if line.get_char(i + j) != m.get_char(j) {
            proof {
                assert(line@.subrange(i as int, i + 8)[j as int] != marker()[j as int]);
            }
            return false;
        }
        j = j + 1;
    }
    proof {
        assert(line@.subrange(i as int, i + 8) =~= marker());
    }
    true
}

/// The cheap pre-filter of the read loop: whether a received line contains
/// the error-field marker anywhere.
pub fn contains_marker(line: &str) -> (r: bool)
    ensures
        r == has_marker(line@),
{
    let m = "\"error\":";
    proof {
        reveal_strlit("\"error\":");
        assert(m@ =~= marker());
    }
    let len = line.unicode_len();
    if len < 8 {
        proof {
            assert(forall|i: int| !marker_at(line@, i));
        }
        return false;
    }
    let mut i: usize = 0;
    while i <= len - 8
        invariant
            m@ == marker(),
            len == line@.len(),
            len >= 8,
            i <= len - 8 + 1,
            forall|k: int| 0 <= k < i ==> !marker_at(line@, k),
        decreases len - i,
    {
        if marker_match_at(line, m, i) {
            return true;
        }
        i = i + 1;
    }
    proof {
        assert(forall|k: int| marker_at(line@, k) ==> 0 <= k < i);
    }
    false
}

/// What the top-level `error` member of a received line turns out to be:
/// the line is not JSON at all (with the parser's message), it is JSON but
/// has no `error` member holding a string, or it has one with this text.
pub enum LineVerdict {
    NotJson(Seq<char>),
    NoErrorString,
    ErrorText(Seq<char>),
}

/// Executable counterpart of `LineVerdict`, as handed back by the JSON
/// inspection of one candidate line.
#[derive(Debug, PartialEq)]
pub enum LineOutcome {
    NotJson(String),
    NoErrorString,
    ErrorText(String),
}

impl View for LineOutcome {
    type V = LineVerdict;

    open spec fn view(&self) -> LineVerdict {
        match self {
            LineOutcome::NotJson(m) => LineVerdict::NotJson(m@),
            LineOutcome::NoErrorString => LineVerdict::NoErrorString,
            LineOutcome::ErrorText(t) => LineVerdict::ErrorText(t@),
        }
    }
}

/// The verdict on one line of text: what parsing it as JSON and reading
/// its top-level `error` member yields. A function of the line alone.
pub uninterp spec fn line_verdict(line: Seq<char>) -> LineVerdict;

/// Relies on serde_json's `from_str` and `Value::get`: whether a string
/// slice parses as JSON, the parser's message when it does not, and the
/// value of the top-level `error` member when it does are all functions of
/// the input text alone; `line_verdict` names their combined outcome.
#[verifier::external_body]
fn inspect_line(line: &str) -> (r: LineOutcome)
    ensures
        r@ == line_verdict(line@),
{
    match serde_json::from_str::<serde_json::Value>(line) {
        Ok(value) => match value.get("error") {
            Some(serde_json::Value::String(text)) => LineOutcome::ErrorText(text.clone()),
            _ => LineOutcome::NoErrorString,
        },
        Err(why) => LineOutcome::NotJson(why.to_string()),
    }
}

/// The player's distinguished success acknowledgement text.
pub open spec fn success_text() -> Seq<char> {
    seq!['s', 'u', 'c', 'c', 'e', 's', 's']
}

/// How a verdict on the matching line becomes the result of the round
/// trip: an unparsable line is a parse failure carrying the parser's
/// message, a missing or non-string `error` member is an unexpected
/// result, the text `success` is success, and any other text is the
/// player's own error, carried verbatim.
pub open spec fn classify_verdict(v: LineVerdict) -> Result<(), ErrorCodeView> {
    match v {
        LineVerdict::NotJson(m) => Err(ErrorCodeView::JsonParseError(m)),
        LineVerdict::NoErrorString => Err(ErrorCodeView::UnexpectedResult),
        LineVerdict::ErrorText(t) => if t == success_text() {
            Ok(())
        } else {
            Err(ErrorCodeView::MpvError(t))
        },
    }
}

/// Map the inspection of the matching line to the typed outcome of the
/// round trip, exactly as `classify_verdict` states.
pub fn classify_outcome(v: LineOutcome) -> (r: Result<(), ErrorCode>)
    ensures
        outcome_view(r) == classify_verdict(v@),
{
    match v {
        LineOutcome::NotJson(m) => Err(ErrorCode::JsonParseError(m)),
        LineOutcome::NoErrorString => Err(ErrorCode::UnexpectedResult),
        LineOutcome::ErrorText(t) => {
            let is_success = str_eq_str(t.as_str(), "success");
            proof {
                reveal_strlit("success");
                assert("success"@ =~= success_text());
            }
            if is_success {
                Ok(())
            } else {
                Err(ErrorCode::MpvError(t))
            }
        },
    }
}

/// Parse one candidate line as JSON and classify its `error` member.
pub fn classify_line(line: &str) -> (r: Result<(), ErrorCode>)
    ensures
        outcome_view(r) == classify_verdict(line_verdict(line@)),
{
    let outcome = inspect_line(line);
    classify_outcome(outcome)
}

/// The decision the read loop takes after each received line.
#[derive(Debug, PartialEq)]
pub enum Step {
    /// The line does not carry the error indicator: discard it and await
    /// the next line.
    AwaitMore,
    /// The line carries the indicator: the round trip ends with this
    /// outcome, and no further line is read.
    Done(Result<(), ErrorCode>),
}

/// Decide what one received line means for the round trip in flight:
/// lines without the marker are discarded, and the first line with it is
/// parsed and classified, ending the round trip.
pub fn on_line(line: &str) -> (r: Step)
    ensures
        !has_marker(line@) ==> r == Step::AwaitMore,
        has_marker(line@) ==> (r matches Step::Done(res)
            && outcome_view(res) == classify_verdict(line_verdict(line@))),
{
    if contains_marker(line) {
        Step::Done(classify_line(line))
    } else {
        Step::AwaitMore
    }
}

/// No line among the first `n` of `ls` contains the marker.
pub open spec fn no_marker_before(ls: Seq<Seq<char>>, n: int) -> bool {
    forall|k: int| 0 <= k < n ==> !has_marker(ls[k])
}

/// Run the awaiting side of a round trip over an already-received sequence
/// of lines: discard lines up to the first one containing the marker,
/// classify that line, and report the outcome together with how many lines
/// were consumed. When no line matches, every line is consumed and there
/// is no outcome.
pub fn scan_lines(lines: &Vec<String>) -> (r: (Option<Result<(), ErrorCode>>, usize))
    ensures
        r.1 <= lines@.len(),
        r.0 is None ==> r.1 == lines@.len()
            && no_marker_before(lines.deep_view(), lines@.len() as int),
        r.0 is Some ==> {
            &&& 1 <= r.1
            &&& no_marker_before(lines.deep_view(), r.1 - 1)
            &&& has_marker(lines.deep_view()[r.1 - 1])
            &&& outcome_view(r.0.unwrap())
                == classify_verdict(line_verdict(lines.deep_view()[r.1 - 1]))
        },
{
    let mut i: usize = 0;
    while i < lines.len()
        invariant
            i <= lines@.len(),
            no_marker_before(lines.deep_view(), i as int),
        decreases lines@.len() - i,
    {
        proof {
            assert(lines.deep_view()[i as int] == lines@[i as int]@);
        }
        match on_line(lines[i].as_str()) {
            Step::AwaitMore => {
                i = i + 1;
            },
            Step::Done(res) => {
                return (Some(res), i + 1);
            },
        }
    }
    (None, i)
}

} // verus!
