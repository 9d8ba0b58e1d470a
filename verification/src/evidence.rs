//! The evidence in a failure report: what the transcript says last, the capture that shows it, and
//! the end of the logs without repetitions.
use crate::json::{
    copy_json, member, member2, parse_json_bytes, print_json, text_value, Json, JsonValue,
};
use crate::arguments;
use crate::json;
use crate::lines::{contains_text, lossy_text, single_spaced, trim};
use crate::lines;
use crate::runner::RunFailure;
use crate::summary::RunSummary;
use crate::text::{cat4, chars_of, same_text, text_of};
use crate::text;
use crate::transcript::{is_diagnostic_answer, render_within, FoundFile, TRANSCRIPT_LINE_MAX_BYTES};
use crate::transcript;
use vstd::prelude::*;

verus! {

/// The most bytes of the end of a transcript that are read.
pub const TRANSCRIPT_TAIL_MAX_BYTES: u64 = 262_144;

/// The most bytes of the end of a log that are read.
pub const LOG_TAIL_MAX_BYTES: u64 = 65_536;

/// The most lines of each log that are looked at.
pub const LOG_CANDIDATE_LINES: usize = 100;

/// The most lines of the logs in a report.
pub const LOG_TAIL_LINES: usize = 20;

/// The most bytes of the semantic evidence in a report.
pub const SEMANTIC_EVIDENCE_MAX_BYTES: usize = 8192;

/// The most files of a directory that are looked at for the newest picture.
pub const CAPTURE_ENTRIES: usize = 10_000;

/// The end of a file.
pub struct Tail {
    /// The bytes.
    pub bytes: Vec<u8>,
    /// Whether the file has more before them.
    pub cut: bool,
}

/// What a transcript shows of a failure.
pub struct TranscriptEvidence {
    /// The context of the latest error, or else the latest diagnostic details.
    pub semantic: Option<Json>,
    /// The capture that shows the failure.
    pub failure_capture: Option<String>,
}

/// What a transcript has shown so far.
pub struct EvidenceView {
    /// The context of the latest error.
    pub error: Option<JsonValue>,
    /// The latest diagnostic details.
    pub details: Option<JsonValue>,
    /// The capture that shows the failure.
    pub capture: Option<Seq<char>>,
}

/// The capture that a context names: that of the failure, or else the latest.
pub open spec fn capture_in(context: Option<JsonValue>) -> Option<Seq<char>> {
    match context {
        None => None,
        Some(context) => match json::value_at2(context, "failure_capture"@, "path"@) {
            Some(path) => json::text_in(Some(path)),
            None => json::text_in(json::value_at2(context, "latest_capture"@, "path"@)),
        },
    }
}

/// Finds the capture that a context names.
pub fn semantic_capture_path(context: Option<&Json>) -> (r: Option<String>)
    ensures
        match r {
            Some(path) => context matches Some(json) && capture_in(Some(json@)) == Some(path@),
            None => context matches Some(json) ==> capture_in(Some(json@)) is None,
        },
{
    let context = match context {
        Some(context) => context,
        None => return None,
    };
    let found = match member2(context, "failure_capture", "path") {
        Some(path) => text_value(Some(path)),
        None => text_value(member2(context, "latest_capture", "path")),
    };
    match found {
        Some(path) => Some(path.to_owned()),
        None => None,
    }
}

/// The capture of a result, which a field of it tells.
pub open spec fn capture_field(response: JsonValue, name: Seq<char>) -> Option<Seq<char>> {
    match json::value_at2(response, "result"@, "capture"@) {
        Some(capture) => json::text_in(json::value_at(capture, name)),
        None => None,
    }
}

/// What the context of an error adds.
pub open spec fn with_error(e: EvidenceView, response: JsonValue) -> EvidenceView {
    match json::not_null(json::value_at2(response, "error"@, "context"@)) {
        Some(context) => EvidenceView {
            error: Some(context),
            capture: match capture_in(Some(context)) {
                Some(path) => Some(path),
                None => e.capture,
            },
            ..e
        },
        None => e,
    }
}

/// What a capture taken after a failed wait adds.
pub open spec fn with_capture(e: EvidenceView, response: JsonValue) -> EvidenceView {
    if capture_field(response, "label"@) == Some("semantic-wait-failure"@) {
        match capture_field(response, "path"@) {
            Some(path) => EvidenceView { capture: Some(path), ..e },
            None => e,
        }
    } else {
        e
    }
}

/// What diagnostic details add.
pub open spec fn with_details(
    e: EvidenceView,
    envelope: JsonValue,
    response: JsonValue,
) -> EvidenceView {
    match json::text_in(json::value_at2(response, "result"@, "status"@)) {
        None => e,
        Some(status) => if !transcript::diagnostic_answer(
            status,
            envelope,
            "input_dispatched"@,
        ) {
            e
        } else {
            match json::not_null(json::value_at2(response, "result"@, "details"@)) {
                Some(details) => EvidenceView { details: Some(details), ..e },
                None => e,
            }
        },
    }
}

/// What a record adds.
pub open spec fn with_record(e: EvidenceView, envelope: JsonValue) -> EvidenceView {
    match json::value_at(envelope, "response"@) {
        None => e,
        Some(response) => with_details(
            with_capture(with_error(e, response), response),
            envelope,
            response,
        ),
    }
}

/// What a line adds. A line that is empty, too long or not JSON adds nothing.
pub open spec fn with_line(e: EvidenceView, line: Seq<u8>) -> EvidenceView {
    if line.len() == 0 || line.len() > TRANSCRIPT_LINE_MAX_BYTES {
        e
    } else {
        match json::parsed_json_bytes(line) {
            Err(_) => e,
            Ok(envelope) => with_record(e, envelope),
        }
    }
}

/// What some lines show.
pub open spec fn shown_by(lines: Seq<Seq<u8>>) -> EvidenceView
    decreases lines.len(),
{
    if lines.len() == 0 {
        EvidenceView { error: None, details: None, capture: None }
    } else {
        with_line(shown_by(lines.drop_last()), lines.last())
    }
}

/// The lines of the end of a transcript. The first is left out where it may lack its start.
pub open spec fn tail_records(bytes: Seq<u8>, cut: bool) -> Seq<Seq<u8>> {
    let all = transcript::complete_lines(bytes).push(transcript::open_line(bytes));
    if cut {
        all.skip(1)
    } else {
        all
    }
}

/// What the end of a transcript shows.
pub open spec fn evidence_of(tail: Tail) -> EvidenceView {
    shown_by(tail_records(tail.bytes@, tail.cut))
}

/// The evidence is what was shown.
pub open spec fn evidence_is(r: TranscriptEvidence, e: EvidenceView) -> bool {
    &&& transcript::opt_value(r.semantic) == (match e.error {
        Some(error) => Some(error),
        None => e.details,
    })
    &&& match (r.failure_capture, e.capture) {
        (Some(a), Some(b)) => a@ == b,
        (None, None) => true,
        _ => false,
    }
}

struct Gathered {
    error: Option<Json>,
    details: Option<Json>,
    capture: Option<String>,
}

impl Gathered {
    spec fn seen(self) -> EvidenceView {
        EvidenceView {
            error: transcript::opt_value(self.error),
            details: transcript::opt_value(self.details),
            capture: match self.capture {
                Some(s) => Some(s@),
                None => None,
            },
        }
    }

    fn take_record(&mut self, envelope: &Json)
        ensures
            final(self).seen() == with_record(old(self).seen(), envelope@),
    {
        let response = match member(envelope, "response") {
            Some(response) => response,
            None => return,
        };
        match member2(response, "error", "context") {
            Some(Json::Null) | None => {},
            Some(context) => {
                match semantic_capture_path(Some(context)) {
                    Some(path) => self.capture = Some(path),
                    None => {},
                }
                self.error = Some(copy_json(context));
            },
        }
        assert(self.seen() == with_error(old(self).seen(), response@));
        match member2(response, "result", "capture") {
            Some(capture) => {
                let failed = match text_value(member(capture, "label")) {
                    Some(label) => same_text(label, "semantic-wait-failure"),
                    None => false,
                };
                if failed {
                    match text_value(member(capture, "path")) {
                        Some(path) => self.capture = Some(path.to_owned()),
                        None => {},
                    }
                }
            },
            None => {},
        }
        assert(self.seen() == with_capture(with_error(old(self).seen(), response@), response@));
        let status = match text_value(member2(response, "result", "status")) {
            Some(status) => status,
            None => return,
        };
        if is_diagnostic_answer(status, envelope, "input_dispatched") {
            match member2(response, "result", "details") {
                Some(Json::Null) | None => {},
                Some(details) => {
                    self.details = Some(copy_json(details));
                },
            }
        }
    }

    fn take_line(&mut self, line: &[u8])
        ensures
            final(self).seen() == with_line(old(self).seen(), line@),
    {
        if line.len() == 0 || line.len() > TRANSCRIPT_LINE_MAX_BYTES {
            return;
        }
        match parse_json_bytes(line) {
            Ok(envelope) => self.take_record(&envelope),
            Err(_) => {},
        }
    }
}

/// Reads what the end of a transcript shows of a failure.
pub fn read_transcript_evidence(tail: &Tail) -> (r: TranscriptEvidence)
    ensures
        evidence_is(r, evidence_of(*tail)),
{
    let mut gathered = Gathered { error: None, details: None, capture: None };
    let bytes = &tail.bytes;
    let mut line: Vec<u8> = Vec::new();
    let mut skip = tail.cut;
    let mut i: usize = 0;
    let ghost all = tail.bytes@;
    proof {
        assert(all.take(0) =~= Seq::<u8>::empty());
        assert(transcript::complete_lines(all.take(0)) =~= Seq::<Seq<u8>>::empty());
    }
    while i < bytes.len()
        invariant
            i <= bytes@.len(),
            bytes@ == all,
            all == tail.bytes@,
            line@ == transcript::open_line(all.take(i as int)),
            skip == (tail.cut && transcript::complete_lines(all.take(i as int)).len() == 0),
            gathered.seen() == shown_by(
                if tail.cut && !skip {
                    transcript::complete_lines(all.take(i as int)).skip(1)
                } else if tail.cut {
                    Seq::empty()
                } else {
                    transcript::complete_lines(all.take(i as int))
                },
            ),
        decreases bytes@.len() - i,
    {
        let byte = bytes[i];
        let ghost before = transcript::complete_lines(all.take(i as int));
        let ghost open = line@;
        proof {
            let next = all.take(i + 1);
            assert(next.drop_last() =~= all.take(i as int));
            assert(next.last() == byte);
        }
        if byte == 10 {
            if skip {
                assert(before.push(open).skip(1) =~= Seq::<Seq<u8>>::empty());
                skip = false;
            } else {
                gathered.take_line(line.as_slice());
                proof {
                    let now = if tail.cut {
                        before.push(open).skip(1)
                    } else {
                        before.push(open)
                    };
                    assert(now.drop_last() =~= if tail.cut {
                        before.skip(1)
                    } else {
                        before
                    });
                    assert(now.last() == open);
                }
            }
            line = Vec::new();
        } else {
            line.push(byte);
        }
        i = i + 1;
    }
    assert(all.take(all.len() as int) =~= all);
    let ghost lines = transcript::complete_lines(all);
    if !skip {
        gathered.take_line(line.as_slice());
        proof {
            let now = tail_records(all, tail.cut);
            assert(now.drop_last() =~= if tail.cut {
                lines.skip(1)
            } else {
                lines
            });
            assert(now.last() == line@);
        }
    } else {
        assert(tail_records(all, tail.cut) =~= Seq::<Seq<u8>>::empty());
    }
    let semantic = match gathered.error {
        Some(error) => Some(error),
        None => gathered.details,
    };
    TranscriptEvidence { semantic, failure_capture: gathered.capture }
}

/// Law: a capture taken after a failed wait takes the place of one that an error names.
pub proof fn law_failure_capture_is_preferred(e: EvidenceView, response: JsonValue)
    requires
        capture_field(response, "label"@) == Some("semantic-wait-failure"@),
        capture_field(response, "path"@) is Some,
    ensures
        with_capture(with_error(e, response), response).capture == capture_field(
            response,
            "path"@,
        ),
{
}

/// The semantic evidence within 8192 bytes of JSON.
pub fn render_semantic_evidence(context: &Json) -> (r: String)
    ensures
        r@ == transcript::rendered_within(context@, SEMANTIC_EVIDENCE_MAX_BYTES as int),
        text::byte_len(r@) <= SEMANTIC_EVIDENCE_MAX_BYTES,
{
    render_within(context, SEMANTIC_EVIDENCE_MAX_BYTES)
}

/// The last lines of the end of a log. The first line is left out where it may lack its start.
pub open spec fn log_lines(tail: Tail, most: nat) -> Seq<Seq<char>> {
    let all = lines::lines_of(lines::lossy(tail.bytes@));
    lines::last_of(
        if tail.cut && all.len() > 0 {
            all.skip(1)
        } else {
            all
        },
        most,
    )
}

/// The last lines of the end of a log.
pub fn tail_lines(tail: &Tail, max_lines: usize) -> (r: Vec<String>)
    ensures
        lines::views(r@) == log_lines(*tail, max_lines as nat),
{
    let whole = lossy_text(tail.bytes.as_slice());
    let all = lines::lines(whole.as_str());
    let first: usize = if tail.cut && all.len() > 0 {
        1
    } else {
        0
    };
    let from: usize = if all.len() - first > max_lines {
        all.len() - max_lines
    } else {
        first
    };
    let mut out: Vec<String> = Vec::new();
    let mut i: usize = from;
    while i < all.len()
        invariant
            from <= i <= all@.len(),
            lines::views(out@) == lines::views(all@).subrange(from as int, i as int),
        decreases all@.len() - i,
    {
        let line = all[i].clone();
        proof {
            lines::lemma_views_push(out@, line);
            assert(lines::views(all@).subrange(from as int, i + 1) =~= lines::views(
                all@,
            ).subrange(from as int, i as int).push(line@));
        }
        out.push(line);
        i = i + 1;
    }
    assert(lines::views(out@) =~= log_lines(*tail, max_lines as nat));
    out
}

/// A line of a log with the name of its source.
pub struct LogLine {
    /// The source.
    pub source: &'static str,
    /// The line.
    pub line: String,
}

/// The lines with the name of their source, as a model.
pub open spec fn sourced(source: Seq<char>, texts: Seq<Seq<char>>) -> Seq<(Seq<char>, Seq<char>)> {
    Seq::new(texts.len(), |i: int| (source, texts[i]))
}

/// The view of lines with their sources.
pub open spec fn log_views(list: Seq<LogLine>) -> Seq<(Seq<char>, Seq<char>)> {
    Seq::new(list.len(), |i: int| (list[i].source@, list[i].line@))
}

/// What a log adds to the lines that are looked at.
pub open spec fn candidates_of(source: Seq<char>, tail: Option<Tail>) -> Seq<
    (Seq<char>, Seq<char>),
> {
    match tail {
        Some(tail) => sourced(source, log_lines(tail, LOG_CANDIDATE_LINES as nat)),
        None => Seq::empty(),
    }
}

/// Adds the last lines of a log to those that are looked at.
pub fn append_log_candidates(
    candidates: &mut Vec<LogLine>,
    source: &'static str,
    tail: &Option<Tail>,
)
    ensures
        log_views(final(candidates)@) == log_views(old(candidates)@) + candidates_of(
            source@,
            *tail,
        ),
{
    let ghost before = log_views(candidates@);
    let tail = match tail {
        Some(tail) => tail,
        None => {
            assert(log_views(candidates@) =~= before + Seq::<(Seq<char>, Seq<char>)>::empty());
            return;
        },
    };
    let last = tail_lines(tail, LOG_CANDIDATE_LINES);
    let ghost new = sourced(source@, lines::views(last@));
    let mut i: usize = 0;
    assert(before + new.take(0) =~= before);
    while i < last.len()
        invariant
            i <= last@.len(),
            new == sourced(source@, lines::views(last@)),
            log_views(candidates@) == before + new.take(i as int),
        decreases last@.len() - i,
    {
        let ghost list = candidates@;
        candidates.push(LogLine { source, line: last[i].clone() });
        proof {
            assert(log_views(candidates@) =~= log_views(list).push(new[i as int]));
            assert(before + new.take(i + 1) =~= (before + new.take(i as int)).push(
                new[i as int],
            ));
        }
        i = i + 1;
    }
    assert(new.take(new.len() as int) =~= new);
}

/// Ends a terminal control sequence.
pub open spec fn ends_escape(c: char) -> bool {
    '@' <= c && c <= '~'
}

/// How many characters the rest of a terminal control sequence takes.
pub open spec fn escape_len(s: Seq<char>) -> int
    decreases s.len(),
{
    if s.len() == 0 {
        0
    } else if ends_escape(s[0]) {
        1
    } else {
        1 + escape_len(s.skip(1))
    }
}

/// A control sequence is no longer than the text.
proof fn lemma_escape_len(s: Seq<char>)
    ensures
        0 <= escape_len(s) <= s.len(),
    decreases s.len(),
{
    if s.len() > 0 && !ends_escape(s[0]) {
        lemma_escape_len(s.skip(1));
    }
}

/// The text without terminal control sequences.
pub open spec fn without_escapes(s: Seq<char>) -> Seq<char>
    decreases s.len(),
{
    if s.len() == 0 {
        Seq::empty()
    } else if s.len() >= 2 && s[0] == '\u{1b}' && s[1] == '[' {
        let n = escape_len(s.skip(2));
        if n < 0 || n > s.len() - 2 {
            Seq::empty()
        } else {
            without_escapes(s.skip(2 + n))
        }
    } else {
        seq![s[0]] + without_escapes(s.skip(1))
    }
}

fn strip_escapes(s: &str) -> (r: String)
    ensures
        r@ == without_escapes(s@),
{
    let v = chars_of(s);
    let mut out: Vec<char> = Vec::new();
    let mut i: usize = 0;
    assert(v@.skip(0) =~= v@);
    assert(out@ + without_escapes(s@) =~= without_escapes(s@));
    while i < v.len()
        invariant
            i <= v@.len(),
            v@ == s@,
            out@ + without_escapes(v@.skip(i as int)) == without_escapes(s@),
        decreases v@.len() - i,
    {
        let ghost rest = v@.skip(i as int);
        assert(rest[0] == v@[i as int]);
        assert(rest.len() >= 2 ==> rest[1] == v@[i + 1]);
        if v[i] == '\u{1b}' && v.len() - i >= 2 && v[i + 1] == '[' {
            let start: usize = i + 2;
            i = start;
            let mut ended = false;
            while i < v.len() && !ended
                invariant
                    start <= i <= v@.len(),
                    ended ==> escape_len(v@.skip(start as int)) == i - start,
                    !ended ==> escape_len(v@.skip(start as int)) == i - start + escape_len(
                        v@.skip(i as int),
                    ),
                decreases v@.len() - i,
            {
                let c = v[i];
                assert(v@.skip(i as int)[0] == c);
                assert(v@.skip(i as int).skip(1) =~= v@.skip(i + 1));
                i = i + 1;
                if '@' <= c && c <= '~' {
                    ended = true;
                }
            }
            proof {
                assert(rest.skip(2) =~= v@.skip(start as int));
                if !ended {
                    assert(v@.skip(i as int).len() == 0);
                }
                assert(rest.skip(2 + (i - start)) =~= v@.skip(i as int));
            }
        } else {
            let ghost before = out@;
            out.push(v[i]);
            proof {
                assert(rest.skip(1) =~= v@.skip(i + 1));
                assert(before + (seq![rest[0]] + without_escapes(v@.skip(i + 1))) =~= out@
                    + without_escapes(v@.skip(i + 1)));
            }
            i = i + 1;
        }
    }
    assert(v@.skip(i as int).len() == 0);
    assert(out@ + without_escapes(v@.skip(i as int)) =~= out@);
    text_of(out.as_slice())
}

/// The character occurs in the text.
pub open spec fn has_char(s: Seq<char>, c: char) -> bool {
    exists|i: int| 0 <= i < s.len() && s[i] == c
}

fn contains_char(v: &Vec<char>, c: char) -> (r: bool)
    ensures
        r == has_char(v@, c),
{
    let at = lines::find_char(v, 0, c);
    assert(v@.skip(0) =~= v@);
    proof {
        if at >= v@.len() {
            assert forall|i: int| 0 <= i < v@.len() implies v@[i] != c by {
                lemma_not_before_first(v@, c, i);
            }
        }
    }
    at < v.len()
}

proof fn lemma_not_before_first(s: Seq<char>, c: char, i: int)
    requires
        0 <= i < lines::first_of(s, c),
        i < s.len(),
    ensures
        s[i] != c,
    decreases s.len(),
{
    if i > 0 {
        assert(s.skip(1)[i - 1] == s[i]);
        lemma_not_before_first(s.skip(1), c, i - 1);
    }
}

/// A word that looks like the time at the start of a line of a log.
pub open spec fn timestamp(token: Seq<char>) -> bool {
    &&& text::byte_len(token) >= 8
    &&& has_char(token, ':')
    &&& has_char(token, '-')
    &&& (has_char(token, 'T') || forall|i: int|
        0 <= i < token.len() && i < 4 ==> text::is_digit(#[trigger] token[i]))
}

/// Tells whether a word looks like the time at the start of a line of a log.
pub fn looks_like_timestamp(token: &str) -> (r: bool)
    ensures
        r == timestamp(token@),
{
    let v = chars_of(token);
    if token.as_bytes().len() < 8 || !contains_char(&v, ':') || !contains_char(&v, '-') {
        return false;
    }
    if contains_char(&v, 'T') {
        return true;
    }
    let mut i: usize = 0;
    while i < v.len() && i < 4
        invariant
            i <= v@.len(),
            i <= 4,
            v@ == token@,
            !has_char(token@, 'T'),
            forall|k: int| 0 <= k < i ==> text::is_digit(#[trigger] token@[k]),
        decreases 4 - i,
    {
        if !('0' <= v[i] && v[i] <= '9') {
            assert(!text::is_digit(token@[i as int]));
            return false;
        }
        i = i + 1;
    }
    true
}

/// The line without the time at its start.
pub open spec fn without_timestamp(s: Seq<char>) -> Seq<char> {
    let n = lines::word_len(s);
    if 0 <= n < s.len() && timestamp(s.take(n)) {
        s.skip(n + 1)
    } else {
        s
    }
}

/// A line of a log without terminal control sequences, without its time and with single spaces.
pub open spec fn normalized(line: Seq<char>) -> Seq<char> {
    lines::spaced(
        lines::words_of(without_timestamp(lines::trimmed(without_escapes(line)))),
    )
}

/// Brings a line of a log into the form in which lines are compared.
pub fn normalize_log_line(line: &str) -> (r: String)
    ensures
        r@ == normalized(line@),
{
    let plain = strip_escapes(line);
    let plain = trim(plain.as_str());
    let v = chars_of(plain.as_str());
    let n = lines::first_white(&v);
    if n < v.len() {
        let token = text_of(vstd::slice::slice_subrange(v.as_slice(), 0, n));
        assert(token@ =~= plain@.take(n as int));
        if looks_like_timestamp(token.as_str()) {
            let rest = text_of(vstd::slice::slice_subrange(v.as_slice(), n + 1, v.len()));
            assert(rest@ =~= plain@.skip(n + 1));
            return single_spaced(rest.as_str());
        }
    }
    single_spaced(plain.as_str())
}

/// A line of a log belongs into a report: it is not empty and does not repeat the evidence.
pub open spec fn reportable(line: Seq<char>, semantic: Option<Seq<char>>) -> bool {
    &&& line.len() > 0
    &&& !lines::occurs(line, "diagnostic context:"@)
    &&& semantic matches Some(json) ==> !lines::occurs(line, json)
}

/// One of the lines reads like this.
pub open spec fn appears(list: Seq<(Seq<char>, Seq<char>)>, line: Seq<char>) -> bool {
    exists|i: int| 0 <= i < list.len() && normalized((#[trigger] list[i]).1) == line
}

/// A line as a report shows it.
pub open spec fn labelled(source: Seq<char>, line: Seq<char>) -> Seq<char> {
    "["@ + source + "] "@ + line
}

/// The lines that belong into a report, each where it first appears.
pub open spec fn kept_lines(
    list: Seq<(Seq<char>, Seq<char>)>,
    semantic: Option<Seq<char>>,
) -> Seq<Seq<char>>
    decreases list.len(),
{
    if list.len() == 0 {
        Seq::empty()
    } else {
        let before = kept_lines(list.drop_last(), semantic);
        let line = normalized(list.last().1);
        if reportable(line, semantic) && !appears(list.drop_last(), line) {
            before.push(labelled(list.last().0, line))
        } else {
            before
        }
    }
}

/// The JSON text of the evidence.
pub open spec fn semantic_text(semantic: Option<JsonValue>) -> Option<Seq<char>> {
    match semantic {
        Some(value) => Some(json::printed_json(value)),
        None => None,
    }
}

/// The end of the logs in a report.
pub open spec fn log_tail_of(
    game: Option<Tail>,
    driver: Option<Tail>,
    semantic: Option<JsonValue>,
) -> Seq<Seq<char>> {
    lines::last_of(
        kept_lines(
            candidates_of("game"@, game) + candidates_of("driver"@, driver),
            semantic_text(semantic),
        ),
        LOG_TAIL_LINES as nat,
    )
}

fn is_listed(list: &Vec<String>, line: &str) -> (r: bool)
    ensures
        r == lines::views(list@).contains(line@),
{
    let mut i: usize = 0;
    while i < list.len()
        invariant
            i <= list@.len(),
            forall|k: int| 0 <= k < i ==> lines::views(list@)[k] != line@,
        decreases list@.len() - i,
    {
        if same_text(list[i].as_str(), line) {
            assert(lines::views(list@)[i as int] == line@);
            return true;
        }
        i = i + 1;
    }
    false
}

/// The end of the logs without lines that say nothing new. At most twenty lines are kept.
pub fn deduplicated_log_tail(
    game: &Option<Tail>,
    driver: &Option<Tail>,
    semantic: Option<&Json>,
) -> (r: Vec<String>)
    ensures
        lines::views(r@) == log_tail_of(
            *game,
            *driver,
            match semantic {
                Some(json) => Some(json@),
                None => None,
            },
        ),
        r@.len() <= LOG_TAIL_LINES,
{
    let semantic_json: Option<String> = match semantic {
        Some(json) => Some(print_json(json)),
        None => None,
    };
    let ghost told = arguments::opt_view(semantic_json);
    let mut candidates: Vec<LogLine> = Vec::new();
    assert(log_views(candidates@) =~= Seq::<(Seq<char>, Seq<char>)>::empty());
    append_log_candidates(&mut candidates, "game", game);
    append_log_candidates(&mut candidates, "driver", driver);
    let ghost list = log_views(candidates@);
    assert(list =~= candidates_of("game"@, *game) + candidates_of("driver"@, *driver));
    let mut seen: Vec<String> = Vec::new();
    let mut kept: Vec<String> = Vec::new();
    let mut i: usize = 0;
    assert(lines::views(kept@) =~= kept_lines(list.take(0), told));
    while i < candidates.len()
        invariant
            i <= candidates@.len(),
            list == log_views(candidates@),
            told == arguments::opt_view(semantic_json),
            lines::views(kept@) == kept_lines(list.take(i as int), told),
            forall|line: Seq<char>|
                reportable(line, told) ==> (#[trigger] lines::views(seen@).contains(line)
                    <==> appears(list.take(i as int), line)),
        decreases candidates@.len() - i,
    {
        let line = normalize_log_line(candidates[i].line.as_str());
        let ghost now = list.take(i as int);
        let ghost next = list.take(i + 1);
        proof {
            assert(next.drop_last() =~= now);
            assert(next.last() == list[i as int]);
            assert(normalized(next.last().1) == line@);
        }
        let repeats = match &semantic_json {
            Some(json) => contains_text(line.as_str(), json.as_str()),
            None => false,
        };
        let worth = !line.as_str().is_empty() && !contains_text(
            line.as_str(),
            "diagnostic context:",
        ) && !repeats;
        assert(worth == reportable(line@, told));
        let ghost old_seen = seen@;
        if worth {
            if !is_listed(&seen, line.as_str()) {
                let shown = cat4("[", candidates[i].source, "] ", line.as_str());
                proof {
                    lines::lemma_views_push(kept@, shown);
                }
                kept.push(shown);
                proof {
                    lines::lemma_views_push(seen@, line);
                }
                seen.push(line);
            }
        }
        proof {
            let said = normalized(next.last().1);
            assert forall|other: Seq<char>| reportable(other, told) implies (
            #[trigger] lines::views(seen@).contains(other) <==> appears(next, other)) by {
                if appears(now, other) {
                    let k = choose|k: int|
                        0 <= k < now.len() && normalized((#[trigger] now[k]).1) == other;
                    assert(next[k] == now[k]);
                }
                if appears(next, other) {
                    let k = choose|k: int|
                        0 <= k < next.len() && normalized((#[trigger] next[k]).1) == other;
                    if k < i {
                        assert(now[k] == next[k]);
                    }
                }
                if other == said {
                    assert(normalized(next[i as int].1) == other);
                    assert(appears(next, other));
                }
                assert(appears(next, other) <==> appears(now, other) || other == said);
                let old_views = lines::views(old_seen);
                let new_views = lines::views(seen@);
                if old_views.contains(other) {
                    let k = choose|k: int| 0 <= k < old_views.len() && old_views[k] == other;
                    assert(new_views[k] == other);
                }
                if seen@.len() > old_seen.len() {
                    assert(new_views =~= old_views.push(said));
                    assert(new_views[old_seen.len() as int] == said);
                }
            }
        }
        i = i + 1;
    }
    assert(list.take(list.len() as int) =~= list);
    let from: usize = if kept.len() > LOG_TAIL_LINES {
        kept.len() - LOG_TAIL_LINES
    } else {
        0
    };
    let tail = last_texts(&kept, from);
    assert(lines::views(tail@) =~= lines::last_of(lines::views(kept@), LOG_TAIL_LINES as nat));
    tail
}

fn last_texts(texts: &Vec<String>, from: usize) -> (r: Vec<String>)
    requires
        from <= texts@.len(),
    ensures
        lines::views(r@) == lines::views(texts@).skip(from as int),
        r@.len() == texts@.len() - from,
{
    let mut r: Vec<String> = Vec::new();
    let mut i: usize = from;
    while i < texts.len()
        invariant
            from <= i <= texts@.len(),
            r@.len() == i - from,
            lines::views(r@) == lines::views(texts@).subrange(from as int, i as int),
        decreases texts@.len() - i,
    {
        let text = texts[i].clone();
        proof {
            lines::lemma_views_push(r@, text);
            assert(lines::views(texts@).subrange(from as int, i + 1) =~= lines::views(
                texts@,
            ).subrange(from as int, i as int).push(text@));
        }
        r.push(text);
        i = i + 1;
    }
    assert(lines::views(r@) =~= lines::views(texts@).skip(from as int));
    r
}

/// Law: a line that reads like an earlier one adds nothing to a report, whichever log it comes
/// from.
pub proof fn law_log_lines_are_new(
    list: Seq<(Seq<char>, Seq<char>)>,
    semantic: Option<Seq<char>>,
    last: (Seq<char>, Seq<char>),
)
    requires
        appears(list, normalized(last.1)),
    ensures
        kept_lines(list.push(last), semantic) == kept_lines(list, semantic),
{
    assert(list.push(last).drop_last() =~= list);
}

/// Finds the newest picture among the first ten thousand files of a directory.
pub fn newest_png(files: &[FoundFile]) -> (r: Option<usize>)
    ensures
        ({
            let looked = if files@.len() > CAPTURE_ENTRIES {
                files@.take(CAPTURE_ENTRIES as int)
            } else {
                files@
            };
            match r {
                Some(i) => transcript::newest_at(looked, i as int),
                None => forall|j: int|
                    0 <= j < looked.len() ==> !transcript::png_name(#[trigger] looked[j].name@),
            }
        }),
{
    if files.len() > CAPTURE_ENTRIES {
        let looked = vstd::slice::slice_subrange(files, 0, CAPTURE_ENTRIES);
        assert(looked@ =~= files@.take(CAPTURE_ENTRIES as int));
        transcript::newest_png(looked)
    } else {
        transcript::newest_png(files)
    }
}

/// What a failed run left behind for its report.
pub struct FailureFiles {
    /// The end of the transcript, where it could be read.
    pub transcript: Option<Tail>,
    /// The end of the log of the application, where it could be read.
    pub game_log: Option<Tail>,
    /// The end of the log of the driver, where there is one that could be read.
    pub driver_log: Option<Tail>,
    /// The newest of the screenshots that were kept.
    pub newest_screenshot: Option<String>,
}

/// What a transcript shows, where it could be read.
pub open spec fn evidence_in(files: FailureFiles) -> EvidenceView {
    match files.transcript {
        Some(tail) => evidence_of(tail),
        None => EvidenceView { error: None, details: None, capture: None },
    }
}

/// The semantic evidence: the context of the latest error, or else the latest details.
pub open spec fn semantic_of(e: EvidenceView) -> Option<JsonValue> {
    match e.error {
        Some(error) => Some(error),
        None => e.details,
    }
}

/// The capture of a report: that which shows the failure, or one that the evidence names, or the
/// newest.
pub open spec fn capture_of(e: EvidenceView, newest: Option<Seq<char>>) -> Option<Seq<char>> {
    match e.capture {
        Some(path) => Some(path),
        None => match capture_in(semantic_of(e)) {
            Some(path) => Some(path),
            None => newest,
        },
    }
}

/// The lines, each indented and ended.
pub open spec fn indented(texts: Seq<Seq<char>>) -> Seq<char>
    decreases texts.len(),
{
    if texts.len() == 0 {
        Seq::empty()
    } else {
        (indented(texts.drop_last()) + "  "@ + texts.last()).push('\n')
    }
}

/// The end of the logs as a report shows it.
pub open spec fn log_block(texts: Seq<Seq<char>>) -> Seq<char> {
    if texts.len() == 0 {
        "log tail: empty\n"@
    } else {
        "log tail (deduplicated, max 20):\n"@ + indented(texts)
    }
}

/// The report on a failed run.
pub open spec fn report_of(
    failure: RunFailure,
    summary: RunSummary,
    files: FailureFiles,
) -> Seq<char> {
    let e = evidence_in(files);
    let newest = match files.newest_screenshot {
        Some(path) => Some(path@),
        None => None,
    };
    "["@ + failure.code@ + "] "@ + failure.message@ + "\nphase: "@ + failure.phase@
        + "\nsemantic evidence: "@ + (match semantic_of(e) {
        Some(value) => transcript::rendered_within(value, SEMANTIC_EVIDENCE_MAX_BYTES as int),
        None => "unavailable"@,
    }) + "\ncapture: "@ + (match capture_of(e, newest) {
        Some(path) => path,
        None => "unavailable"@,
    }) + "\n"@ + log_block(
        log_tail_of(
            files.game_log,
            if summary.artifacts.driver_log is Some {
                files.driver_log
            } else {
                None
            },
            semantic_of(e),
        ),
    ) + "artifacts:\n"@ + transcript::path_line(
        "  run summary: "@,
        Some(summary.artifacts.run_summary@),
    ) + transcript::path_line(
        "  prepare log: "@,
        arguments::opt_view(summary.artifacts.prepare_log),
    ) + transcript::path_line("  game log: "@, Some(summary.artifacts.game_log@))
        + transcript::path_line(
        "  driver log: "@,
        arguments::opt_view(summary.artifacts.driver_log),
    ) + transcript::path_line("  transcript: "@, Some(summary.artifacts.transcript@))
        + transcript::path_line("  screenshots: "@, Some(summary.artifacts.screenshots@))
        + "teardown: inputs="@ + summary.teardown.input_release@ + " shutdown="@
        + summary.teardown.shutdown_acknowledgment@ + " socket="@
        + summary.teardown.socket_closure@ + " child="@ + summary.teardown.child_exit@
        + " forced="@ + (if summary.teardown.forced_termination {
        "true"@
    } else {
        "false"@
    }) + "\n"@
}

fn opt_text(t: &Option<String>) -> (r: Option<&str>)
    ensures
        transcript::opt_str(r) == arguments::opt_view(*t),
{
    match t {
        Some(s) => Some(s.as_str()),
        None => None,
    }
}

fn push_log_block(report: &mut String, texts: &Vec<String>)
    ensures
        final(report)@ == old(report)@ + log_block(lines::views(texts@)),
{
    let ghost before = report@;
    if texts.len() == 0 {
        report.append("log tail: empty\n");
        return;
    }
    report.append("log tail (deduplicated, max 20):\n");
    let ghost all = lines::views(texts@);
    let mut i: usize = 0;
    assert(report@ =~= before + ("log tail (deduplicated, max 20):\n"@ + indented(all.take(0))));
    while i < texts.len()
        invariant
            i <= texts@.len(),
            all == lines::views(texts@),
            report@ == before + ("log tail (deduplicated, max 20):\n"@ + indented(
                all.take(i as int),
            )),
        decreases texts@.len() - i,
    {
        report.append("  ");
        report.append(texts[i].as_str());
        report.push('\n');
        proof {
            let next = all.take(i + 1);
            assert(next.drop_last() =~= all.take(i as int));
            assert(next.last() == texts@[i as int]@);
            assert(report@ =~= before + ("log tail (deduplicated, max 20):\n"@ + indented(next)));
        }
        i = i + 1;
    }
    assert(all.take(all.len() as int) =~= all);
}

/// Writes the report on a failed run.
pub fn render_failure(failure: &RunFailure, summary: &RunSummary, files: &FailureFiles) -> (r:
    String)
    ensures
        r@ == report_of(*failure, *summary, *files),
{
    let evidence = match &files.transcript {
        Some(tail) => read_transcript_evidence(tail),
        None => TranscriptEvidence { semantic: None, failure_capture: None },
    };
    let ghost e = evidence_in(*files);
    let semantic: Option<&Json> = match &evidence.semantic {
        Some(json) => Some(json),
        None => None,
    };
    let shown = match semantic {
        Some(json) => render_semantic_evidence(json),
        None => "unavailable".to_owned(),
    };
    let named = semantic_capture_path(semantic);
    let capture: String = match &evidence.failure_capture {
        Some(path) => path.clone(),
        None => match named {
            Some(path) => path,
            None => match &files.newest_screenshot {
                Some(path) => path.clone(),
                None => "unavailable".to_owned(),
            },
        },
    };
    let no_tail: Option<Tail> = None;
    let driver = if summary.artifacts.driver_log.is_some() {
        &files.driver_log
    } else {
        &no_tail
    };
    let tail = deduplicated_log_tail(&files.game_log, driver, semantic);
    let mut report = String::new();
    report.append("[");
    report.append(failure.code);
    report.append("] ");
    report.append(failure.message.as_str());
    report.append("\nphase: ");
    report.append(failure.phase);
    report.append("\nsemantic evidence: ");
    report.append(shown.as_str());
    report.append("\ncapture: ");
    report.append(capture.as_str());
    report.append("\n");
    push_log_block(&mut report, &tail);
    report.append("artifacts:\n");
    transcript::push_path(
        &mut report,
        "  run summary: ",
        Some(summary.artifacts.run_summary.as_str()),
    );
    transcript::push_path(&mut report, "  prepare log: ", opt_text(&summary.artifacts.prepare_log));
    transcript::push_path(&mut report, "  game log: ", Some(summary.artifacts.game_log.as_str()));
    transcript::push_path(&mut report, "  driver log: ", opt_text(&summary.artifacts.driver_log));
    transcript::push_path(
        &mut report,
        "  transcript: ",
        Some(summary.artifacts.transcript.as_str()),
    );
    transcript::push_path(
        &mut report,
        "  screenshots: ",
        Some(summary.artifacts.screenshots.as_str()),
    );
    report.append("teardown: inputs=");
    report.append(summary.teardown.input_release);
    report.append(" shutdown=");
    report.append(summary.teardown.shutdown_acknowledgment);
    report.append(" socket=");
    report.append(summary.teardown.socket_closure);
    report.append(" child=");
    report.append(summary.teardown.child_exit);
    report.append(" forced=");
    report.append(
        if summary.teardown.forced_termination {
            "true"
        } else {
            "false"
        },
    );
    report.append("\n");
    assert(report@ =~= report_of(*failure, *summary, *files));
    report
}

/// Law: a report names the capture that shows the failure, or else the one that the evidence names,
/// or else the newest; and it shows the context of an error rather than details.
pub proof fn law_reports_prefer_what_shows_the_failure(e: EvidenceView, newest: Option<Seq<char>>)
    ensures
        e.error is Some ==> semantic_of(e) == e.error,
        e.error is None ==> semantic_of(e) == e.details,
        e.capture is Some ==> capture_of(e, newest) == e.capture,
        e.capture is None && capture_in(semantic_of(e)) is Some ==> capture_of(e, newest)
            == capture_in(semantic_of(e)),
        e.capture is None && capture_in(semantic_of(e)) is None ==> capture_of(e, newest) == newest,
{
}

/// Law: what a record shows is added to what was shown, each thing by itself. The context of an error
/// replaces an older one, the details of a diagnostic answer replace older ones, and a capture is
/// taken from an answer that was asked for after a failed wait, or else from the context of an error;
/// what a record does not show stays.
pub proof fn law_records_add_what_they_show(e: EvidenceView, envelope: JsonValue)
    ensures
        ({
            let after = with_record(e, envelope);
            let response = json::value_at(envelope, "response"@);
            let context = json::value_at2(response->Some_0, "error"@, "context"@);
            let told = response is Some && context is Some && !(context->Some_0 is Null);
            let capture = json::value_at2(response->Some_0, "result"@, "capture"@);
            let taken = response is Some && capture is Some && json::text_in(
                json::value_at(capture->Some_0, "label"@),
            ) == Some("semantic-wait-failure"@) && json::text_in(
                json::value_at(capture->Some_0, "path"@),
            ) is Some;
            let details = json::value_at2(response->Some_0, "result"@, "details"@);
            let status = json::text_in(json::value_at2(response->Some_0, "result"@, "status"@));
            let diagnosed = response is Some && status is Some && details is Some && !(
            details->Some_0 is Null) && transcript::diagnostic_answer(
                status->Some_0,
                envelope,
                "input_dispatched"@,
            );
            &&& after.error == (if told {
                context
            } else {
                e.error
            })
            &&& after.details == (if diagnosed {
                details
            } else {
                e.details
            })
            &&& after.capture == (if taken {
                json::text_in(json::value_at(capture->Some_0, "path"@))
            } else if told && capture_in(context) is Some {
                capture_in(context)
            } else {
                e.capture
            })
        }),
{
}

/// Law: lines are looked at one after the other, and those that are empty, too long or no JSON show
/// nothing.
pub proof fn law_lines_show_by_themselves(lines: Seq<Seq<u8>>, line: Seq<u8>)
    ensures
        shown_by(lines.push(line)) == (if 0 < line.len() <= 65536 && json::parsed_json_bytes(line)
            is Ok {
            with_record(shown_by(lines), json::parsed_json_bytes(line)->Ok_0)
        } else {
            shown_by(lines)
        }),
        shown_by(Seq::empty()) == (EvidenceView { error: None, details: None, capture: None }),
{
    assert(lines.push(line).drop_last() =~= lines);
}

/// Law: the lines of a report are lines of the logs: each says something, does not repeat the
/// evidence, and stands for the first line of the logs that reads like it, under the name of its log.
/// Every such first line is there.
pub proof fn law_reported_lines_are_the_first_of_their_kind(
    list: Seq<(Seq<char>, Seq<char>)>,
    semantic: Option<Seq<char>>,
)
    ensures
        forall|k: int|
            0 <= k < kept_lines(list, semantic).len() ==> stands_for_a_line(
                list,
                semantic,
                #[trigger] kept_lines(list, semantic)[k],
            ),
        forall|i: int|
            0 <= i < list.len() && #[trigger] first_of_its_kind(list, semantic, i) ==> kept_lines(
                list,
                semantic,
            ).contains("["@ + list[i].0 + "] "@ + normalized(list[i].1)),
    decreases list.len(),
{
    let kept = kept_lines(list, semantic);
    if list.len() > 0 {
        let before = list.drop_last();
        let n = list.len() - 1;
        law_reported_lines_are_the_first_of_their_kind(before, semantic);
        let earlier = kept_lines(before, semantic);
        let added = first_of_its_kind(list, semantic, n);
        assert(forall|i: int| 0 <= i < before.len() ==> #[trigger] before[i] == list[i]);
        assert(added <==> reportable(normalized(list[n].1), semantic) && !appears(
            before,
            normalized(list[n].1),
        )) by {
            if appears(before, normalized(list[n].1)) {
                let j = choose|j: int|
                    0 <= j < before.len() && normalized((#[trigger] before[j]).1) == normalized(
                        list[n].1,
                    );
                assert(normalized(list[j].1) == normalized(list[n].1));
            } else {
                assert forall|j: int| 0 <= j < n implies normalized((#[trigger] list[j]).1)
                    != normalized(list[n].1) by {
                    assert(before[j] == list[j]);
                }
            }
        }
        assert forall|k: int| 0 <= k < kept.len() implies stands_for_a_line(
            list,
            semantic,
            #[trigger] kept[k],
        ) by {
            if k < earlier.len() {
                assert(kept[k] == earlier[k]);
                let i = choose|i: int|
                    0 <= i < before.len() && #[trigger] first_of_its_kind(before, semantic, i)
                        && earlier[k] == "["@ + before[i].0 + "] "@ + normalized(before[i].1);
                lemma_first_stays_first(list, semantic, i);
                assert(first_of_its_kind(list, semantic, i));
            } else {
                assert(first_of_its_kind(list, semantic, n));
            }
        }
        assert forall|i: int|
            0 <= i < list.len() && #[trigger] first_of_its_kind(
                list,
                semantic,
                i,
            ) implies kept.contains("["@ + list[i].0 + "] "@ + normalized(list[i].1)) by {
            let shown = "["@ + list[i].0 + "] "@ + normalized(list[i].1);
            if i < n {
                lemma_first_stays_first(list, semantic, i);
                assert(first_of_its_kind(before, semantic, i));
                assert(earlier.contains(shown));
                let k = earlier.index_of(shown);
                assert(kept[k] == earlier[k]);
            } else {
                assert(kept[kept.len() - 1] == shown);
            }
        }
    }
}

/// A line of a report stands for the first line of the logs that reads like it.
pub open spec fn stands_for_a_line(
    list: Seq<(Seq<char>, Seq<char>)>,
    semantic: Option<Seq<char>>,
    shown: Seq<char>,
) -> bool {
    exists|i: int|
        0 <= i < list.len() && #[trigger] first_of_its_kind(list, semantic, i) && shown == "["@
            + list[i].0 + "] "@ + normalized(list[i].1)
}

/// The line at this place says something, repeats no evidence, and reads like none before it.
pub open spec fn first_of_its_kind(
    list: Seq<(Seq<char>, Seq<char>)>,
    semantic: Option<Seq<char>>,
    i: int,
) -> bool {
    let line = normalized(list[i].1);
    &&& line.len() > 0
    &&& !lines::occurs(line, "diagnostic context:"@)
    &&& semantic is Some ==> !lines::occurs(line, semantic->Some_0)
    &&& forall|j: int| 0 <= j < i ==> normalized((#[trigger] list[j]).1) != line
}

proof fn lemma_first_stays_first(
    list: Seq<(Seq<char>, Seq<char>)>,
    semantic: Option<Seq<char>>,
    i: int,
)
    requires
        0 <= i < list.len() - 1,
    ensures
        first_of_its_kind(list, semantic, i) <==> first_of_its_kind(list.drop_last(), semantic, i),
{
    let before = list.drop_last();
    assert(before[i] == list[i]);
    if first_of_its_kind(list, semantic, i) {
        assert forall|j: int| 0 <= j < i implies normalized((#[trigger] before[j]).1) != normalized(
            before[i].1,
        ) by {
            assert(before[j] == list[j]);
        }
    }
    if first_of_its_kind(before, semantic, i) {
        assert forall|j: int| 0 <= j < i implies normalized((#[trigger] list[j]).1) != normalized(
            list[i].1,
        ) by {
            assert(before[j] == list[j]);
        }
    }
}

/// Law: a text without escape characters stays, before whatever comes, and a control sequence goes as
/// a whole: the escape, the bracket, everything up to the first character that ends it, and that
/// character.
pub proof fn law_control_sequences_go_as_a_whole(
    plain: Seq<char>,
    inside: Seq<char>,
    end: char,
    rest: Seq<char>,
)
    requires
        forall|i: int| 0 <= i < plain.len() ==> #[trigger] plain[i] != '\u{1b}',
        forall|i: int|
            0 <= i < inside.len() ==> !('@' <= #[trigger] inside[i] && inside[i] <= '~'),
        '@' <= end && end <= '~',
    ensures
        without_escapes(plain + rest) == plain + without_escapes(rest),
        without_escapes(seq!['\u{1b}', '['] + inside + seq![end] + rest) == without_escapes(rest),
    decreases plain.len(),
{
    if plain.len() == 0 {
        assert(plain + rest =~= rest);
        assert(plain + without_escapes(rest) =~= without_escapes(rest));
    } else {
        let tail = plain.skip(1);
        assert forall|i: int| 0 <= i < tail.len() implies #[trigger] tail[i] != '\u{1b}' by {
            assert(tail[i] == plain[i + 1]);
        }
        law_control_sequences_go_as_a_whole(tail, inside, end, rest);
        assert((plain + rest)[0] == plain[0]);
        assert((plain + rest).skip(1) =~= tail + rest);
        assert(without_escapes(plain + rest) =~= seq![plain[0]] + without_escapes(tail + rest));
        assert(seq![plain[0]] + (tail + without_escapes(rest)) =~= plain + without_escapes(rest));
    }
    let whole = seq!['\u{1b}', '['] + inside + seq![end] + rest;
    let behind = inside + seq![end] + rest;
    assert(whole.skip(2) =~= behind);
    assert(whole[0] == '\u{1b}' && whole[1] == '[');
    lemma_escape_ends(inside, end, rest);
    assert(whole.skip(inside.len() + 3int) =~= rest);
}

proof fn lemma_escape_ends(inside: Seq<char>, end: char, rest: Seq<char>)
    requires
        forall|i: int|
            0 <= i < inside.len() ==> !('@' <= #[trigger] inside[i] && inside[i] <= '~'),
        '@' <= end && end <= '~',
    ensures
        escape_len(inside + seq![end] + rest) == inside.len() + 1,
    decreases inside.len(),
{
    let whole = inside + seq![end] + rest;
    if inside.len() == 0 {
        assert(whole[0] == end);
    } else {
        let tail = inside.skip(1);
        assert forall|i: int| 0 <= i < tail.len() implies !('@' <= #[trigger] tail[i] && tail[i]
            <= '~') by {
            assert(tail[i] == inside[i + 1]);
        }
        lemma_escape_ends(tail, end, rest);
        assert(whole[0] == inside[0]);
        assert(whole.skip(1) =~= tail + seq![end] + rest);
    }
}

} // verus!
