//! What a run that failed can tell: the diagnostic context of its transcript, the ends of its
//! logs and its captures.
use vstd::prelude::*;

use crate::json;
use crate::json::{
    copy_json, json_text, member, member2, parse_json_bytes, print_json, text_value, Json,
    JsonValue, ObjectBuilder,
};
use crate::lines;
use crate::lines::{join_lines, lossy_text, trim_end};
use crate::text;
use crate::text::{cat3, cat4, chars_of, clip, decimal, same_text, text_at_most};

verus! {

/// The most bytes of the diagnostic context in a failure summary, with its heading.
pub const DIAGNOSTIC_BLOCK_MAX_BYTES: usize = 8192;

/// The most bytes of a line of the transcript that is read.
pub const TRANSCRIPT_LINE_MAX_BYTES: usize = 65536;

/// The view of an optional value.
pub open spec fn opt_value(json: Option<Json>) -> Option<JsonValue> {
    match json {
        Some(j) => Some(j@),
        None => None,
    }
}

/// The status of an answer that carries diagnostic details.
pub open spec fn diagnostic_status(status: Seq<char>, click: Seq<char>) -> bool {
    ||| status == "target_info"@
    ||| status == click
    ||| status == "resource_info"@
    ||| status == "predicate_evaluated"@
    ||| status == "predicate_matched"@
}

/// A command whose plain answer carries diagnostic details.
pub open spec fn diagnostic_command(command: Seq<char>) -> bool {
    ||| command == "ecs_summary"@
    ||| command == "list_entities"@
    ||| command == "camera_info"@
    ||| command == "state_info"@
    ||| command == "marker_info"@
}

/// An answer with this status carries diagnostic details.
pub open spec fn diagnostic_answer(
    status: Seq<char>,
    envelope: JsonValue,
    click: Seq<char>,
) -> bool {
    ||| diagnostic_status(status, click)
    ||| status == "ok"@ && (json::text_in(
        json::value_at2(envelope, "request"@, "command"@),
    ) matches Some(command) && diagnostic_command(command))
}

/// Tells whether an answer carries diagnostic details.
pub(crate) fn is_diagnostic_answer(status: &str, envelope: &Json, click: &str) -> (r: bool)
    ensures
        r == diagnostic_answer(status@, envelope@, click@),
{
    if same_text(status, "target_info") || same_text(status, click) || same_text(
        status,
        "resource_info",
    ) || same_text(status, "predicate_evaluated") || same_text(status, "predicate_matched") {
        return true;
    }
    if !same_text(status, "ok") {
        return false;
    }
    match text_value(member2(envelope, "request", "command")) {
        Some(command) => same_text(command, "ecs_summary") || same_text(command, "list_entities")
            || same_text(command, "camera_info") || same_text(command, "state_info") || same_text(
            command,
            "marker_info",
        ),
        None => false,
    }
}

/// What a transcript has told so far.
pub struct Found {
    /// The context of the latest error.
    pub error: Option<Json>,
    /// The latest diagnostic details.
    pub details: Option<Json>,
}

/// What a transcript has told so far, as a model.
pub struct FoundView {
    /// The context of the latest error.
    pub error: Option<JsonValue>,
    /// The latest diagnostic details.
    pub details: Option<JsonValue>,
}

impl View for Found {
    type V = FoundView;

    open spec fn view(&self) -> FoundView {
        FoundView { error: opt_value(self.error), details: opt_value(self.details) }
    }
}

/// What a record adds to what was found: the context of an error, or diagnostic details.
pub open spec fn remembered(found: FoundView, envelope: JsonValue) -> FoundView {
    match json::value_at(envelope, "response"@) {
        None => found,
        Some(response) => match json::not_null(
            json::value_at2(response, "error"@, "context"@),
        ) {
            Some(context) => FoundView { error: Some(context), ..found },
            None => match json::text_in(json::value_at2(response, "result"@, "status"@)) {
                None => found,
                Some(status) => if !diagnostic_answer(status, envelope, "clicked_target"@) {
                    found
                } else {
                    match json::not_null(json::value_at2(response, "result"@, "details"@)) {
                        Some(details) => FoundView { details: Some(details), ..found },
                        None => found,
                    }
                },
            },
        },
    }
}

/// What a line adds to what was found. A line that is not JSON adds nothing.
pub open spec fn remembered_line(found: FoundView, line: Seq<u8>) -> FoundView {
    match json::parsed_json_bytes(line) {
        Err(_) => found,
        Ok(envelope) => remembered(found, envelope),
    }
}

/// Takes note of a record of the transcript.
pub fn remember_record(envelope: &Json, found: &mut Found)
    ensures
        final(found)@ == remembered(old(found)@, envelope@),
{
    let response = match member(envelope, "response") {
        Some(response) => response,
        None => return,
    };
    match member2(response, "error", "context") {
        Some(Json::Null) | None => {},
        Some(context) => {
            found.error = Some(copy_json(context));
            return;
        },
    }
    let status = match text_value(member2(response, "result", "status")) {
        Some(status) => status,
        None => return,
    };
    if is_diagnostic_answer(status, envelope, "clicked_target") {
        match member2(response, "result", "details") {
            Some(Json::Null) | None => {},
            Some(details) => {
                found.details = Some(copy_json(details));
            },
        }
    }
}

/// Takes note of a line of the transcript.
pub fn remember_transcript_context(line: &[u8], found: &mut Found)
    ensures
        final(found)@ == remembered_line(old(found)@, line@),
{
    match parse_json_bytes(line) {
        Ok(envelope) => remember_record(&envelope, found),
        Err(_) => {},
    }
}

/// A reader of a transcript that comes in pieces.
pub struct TranscriptScan {
    /// The line that has begun.
    pub line: Vec<u8>,
    /// Whether the line that has begun is too long to be read.
    pub discarding: bool,
    /// What was found so far.
    pub found: Found,
}

/// A reader of a transcript, as a model.
#[verifier::ext_equal]
pub struct ScanView {
    /// The line that has begun.
    pub line: Seq<u8>,
    /// Whether the line that has begun is too long to be read.
    pub discarding: bool,
    /// What was found so far.
    pub found: FoundView,
}

impl View for TranscriptScan {
    type V = ScanView;

    open spec fn view(&self) -> ScanView {
        ScanView { line: self.line@, discarding: self.discarding, found: self.found@ }
    }
}

/// The reader after one more byte.
pub open spec fn fed_byte(s: ScanView, byte: u8) -> ScanView {
    if byte == 10 {
        ScanView {
            line: Seq::empty(),
            discarding: false,
            found: if s.discarding {
                s.found
            } else {
                remembered_line(s.found, s.line)
            },
        }
    } else if s.discarding {
        s
    } else if s.line.len() < TRANSCRIPT_LINE_MAX_BYTES {
        ScanView { line: s.line.push(byte), ..s }
    } else {
        ScanView { line: Seq::empty(), discarding: true, ..s }
    }
}

/// The reader after some more bytes.
pub open spec fn fed(s: ScanView, bytes: Seq<u8>) -> ScanView
    decreases bytes.len(),
{
    if bytes.len() == 0 {
        s
    } else {
        fed_byte(fed(s, bytes.drop_last()), bytes.last())
    }
}

/// The reader before any byte.
pub open spec fn fresh_scan() -> ScanView {
    ScanView {
        line: Seq::empty(),
        discarding: false,
        found: FoundView { error: None, details: None },
    }
}

/// The context of the latest error, or else the latest diagnostic details.
pub open spec fn context_found(found: FoundView) -> Option<JsonValue> {
    match found.error {
        Some(error) => Some(error),
        None => found.details,
    }
}

impl TranscriptScan {
    /// A reader before any byte.
    pub fn new() -> (r: TranscriptScan)
        ensures
            r@ == fresh_scan(),
    {
        TranscriptScan {
            line: Vec::new(),
            discarding: false,
            found: Found { error: None, details: None },
        }
    }

    /// Reads some more bytes.
    pub fn feed(&mut self, chunk: &[u8])
        ensures
            final(self)@ == fed(old(self)@, chunk@),
    {
        let ghost start = self@;
        let mut i: usize = 0;
        while i < chunk.len()
            invariant
                i <= chunk@.len(),
                self@ == fed(start, chunk@.take(i as int)),
            decreases chunk@.len() - i,
        {
            let byte = chunk[i];
            let ghost before = self@;
            if byte == 10 {
                if !self.discarding {
                    remember_transcript_context(self.line.as_slice(), &mut self.found);
                }
                self.line = Vec::new();
                self.discarding = false;
            } else if !self.discarding {
                if self.line.len() < TRANSCRIPT_LINE_MAX_BYTES {
                    self.line.push(byte);
                } else {
                    self.line = Vec::new();
                    self.discarding = true;
                }
            }
            proof {
                let next = chunk@.take(i + 1);
                assert(next.drop_last() =~= chunk@.take(i as int));
                assert(next.last() == byte);
                assert(self@ =~= fed_byte(before, byte));
            }
            i = i + 1;
        }
        assert(chunk@.take(chunk@.len() as int) =~= chunk@);
    }

    /// The diagnostic context: that of the latest error, or else the latest details.
    pub fn transcript_diagnostic_context(self) -> (r: Option<Json>)
        ensures
            opt_value(r) == context_found(self@.found),
    {
        match self.found.error {
            Some(error) => Some(error),
            None => self.found.details,
        }
    }
}

/// The part of a transcript after its last line feed.
pub open spec fn open_line(bytes: Seq<u8>) -> Seq<u8>
    decreases bytes.len(),
{
    if bytes.len() == 0 || bytes.last() == 10 {
        Seq::empty()
    } else {
        open_line(bytes.drop_last()).push(bytes.last())
    }
}

/// The lines of a transcript that a line feed ends.
pub open spec fn complete_lines(bytes: Seq<u8>) -> Seq<Seq<u8>>
    decreases bytes.len(),
{
    if bytes.len() == 0 {
        Seq::empty()
    } else if bytes.last() == 10 {
        complete_lines(bytes.drop_last()).push(open_line(bytes.drop_last()))
    } else {
        complete_lines(bytes.drop_last())
    }
}

/// What some lines tell. A line that is too long tells nothing.
pub open spec fn told_by(lines: Seq<Seq<u8>>) -> FoundView
    decreases lines.len(),
{
    if lines.len() == 0 {
        FoundView { error: None, details: None }
    } else {
        let before = told_by(lines.drop_last());
        if lines.last().len() > TRANSCRIPT_LINE_MAX_BYTES {
            before
        } else {
            remembered_line(before, lines.last())
        }
    }
}

/// Law: what a reader has found is what the complete lines of bounded length tell. A last record
/// without its line feed tells nothing.
pub proof fn law_scan_reads_complete_lines(bytes: Seq<u8>)
    ensures
        fed(fresh_scan(), bytes).found == told_by(complete_lines(bytes)),
{
    lemma_scan(bytes);
}

proof fn lemma_scan(bytes: Seq<u8>)
    ensures
        ({
            let s = fed(fresh_scan(), bytes);
            &&& s.found == told_by(complete_lines(bytes))
            &&& s.discarding == (open_line(bytes).len() > TRANSCRIPT_LINE_MAX_BYTES)
            &&& !s.discarding ==> s.line == open_line(bytes)
        }),
    decreases bytes.len(),
{
    if bytes.len() > 0 {
        lemma_scan(bytes.drop_last());
        let before = complete_lines(bytes.drop_last());
        if bytes.last() == 10 {
            let after = before.push(open_line(bytes.drop_last()));
            assert(after.drop_last() =~= before);
        }
    }
}

/// Law: a reader finds the same however the transcript is cut into pieces.
pub proof fn law_scan_ignores_pieces(s: ScanView, a: Seq<u8>, b: Seq<u8>)
    ensures
        fed(fed(s, a), b) == fed(s, a + b),
    decreases b.len(),
{
    if b.len() == 0 {
        assert(a + b =~= a);
    } else {
        law_scan_ignores_pieces(s, a, b.drop_last());
        assert((a + b).drop_last() =~= a + b.drop_last());
    }
}

/// Law: the context of an error is never given up for diagnostic details.
pub proof fn law_errors_come_first(lines: Seq<Seq<u8>>, more: Seq<Seq<u8>>)
    requires
        told_by(lines).error is Some,
    ensures
        told_by(lines + more).error is Some,
        context_found(told_by(lines + more)) == told_by(lines + more).error,
    decreases more.len(),
{
    if more.len() == 0 {
        assert(lines + more =~= lines);
    } else {
        law_errors_come_first(lines, more.drop_last());
        assert((lines + more).drop_last() =~= lines + more.drop_last());
    }
}

/// How many bytes of a text are kept where it is too long.
pub open spec fn kept_prefix(json_text: Seq<char>, limit: int) -> Seq<char> {
    let around = text::byte_len(json::printed_json(json::cut_short(Seq::empty())));
    let room = if limit >= around {
        (limit - around) / 6
    } else {
        0
    };
    json_text.take(text::fitting(json_text, room))
}

/// A value as JSON text within a number of bytes.
pub open spec fn rendered_within(value: JsonValue, limit: int) -> Seq<char> {
    let whole = json::printed_json(value);
    if text::byte_len(whole) <= limit {
        whole
    } else {
        json::printed_json(json::cut_short(kept_prefix(whole, limit)))
    }
}

fn cut_short_json(prefix: &str) -> (r: Json)
    ensures
        r@ == json::cut_short(prefix@),
{
    ObjectBuilder::new().with("truncated", Json::Bool(true)).with(
        "context_json_prefix",
        json_text(prefix),
    ).build()
}

/// Writes a value as JSON within a number of bytes. What is too long is cut, and the result says
/// so and is JSON itself.
pub fn render_within(value: &Json, limit: usize) -> (r: String)
    ensures
        r@ == rendered_within(value@, limit as int),
        limit >= json::CUT_SHORT_BYTES ==> text::byte_len(r@) <= limit,
{
    let whole = print_json(value);
    if whole.as_str().as_bytes().len() <= limit {
        return whole;
    }
    let empty = cut_short_json("");
    let around = print_json(&empty);
    proof {
        reveal_strlit("");
        assert(""@ =~= Seq::<char>::empty());
    }
    let around: usize = around.as_str().as_bytes().len();
    let room: usize = if limit >= around {
        (limit - around) / 6
    } else {
        0
    };
    let prefix = clip(whole.as_str(), room);
    let cut = cut_short_json(prefix.as_str());
    assert(json::cut_short(prefix@) == cut@);
    print_json(&cut)
}

/// The heading of the diagnostic context.
pub const CONTEXT_HEADER: &'static str = "diagnostic context:\n";

/// The bytes that the diagnostic context may take.
pub const CONTEXT_MAX_BYTES: usize = 8171;

/// The diagnostic context in a failure summary.
pub open spec fn context_block(context: Option<JsonValue>) -> Seq<char> {
    match context {
        None => "diagnostic context unavailable\n"@,
        Some(value) => (CONTEXT_HEADER@ + rendered_within(value, CONTEXT_MAX_BYTES as int)).push(
            '\n',
        ),
    }
}

/// Adds the diagnostic context to a failure summary. It never takes more than 8192 bytes.
pub fn append_transcript_context(failure_summary: &mut String, context: Option<&Json>)
    ensures
        final(failure_summary)@ == old(failure_summary)@ + context_block(
            match context {
                Some(json) => Some(json@),
                None => None,
            },
        ),
        text::byte_len(final(failure_summary)@) <= text::byte_len(old(failure_summary)@)
            + DIAGNOSTIC_BLOCK_MAX_BYTES,
{
    let ghost before = failure_summary@;
    match context {
        None => {
            failure_summary.append("diagnostic context unavailable\n");
            proof {
                reveal_strlit("diagnostic context unavailable\n");
                text::lemma_ascii_byte_len("diagnostic context unavailable\n"@);
                text::lemma_byte_len_add(before, "diagnostic context unavailable\n"@);
            }
        },
        Some(value) => {
            let rendered = render_within(value, CONTEXT_MAX_BYTES);
            failure_summary.append(CONTEXT_HEADER);
            failure_summary.append(rendered.as_str());
            failure_summary.push('\n');
            proof {
                reveal_strlit("diagnostic context:\n");
                text::lemma_ascii_byte_len(CONTEXT_HEADER@);
                let block = (CONTEXT_HEADER@ + rendered@).push('\n');
                assert(failure_summary@ =~= before + block);
                text::lemma_byte_len_add(CONTEXT_HEADER@, rendered@);
                text::lemma_byte_len_push(CONTEXT_HEADER@ + rendered@, '\n');
                text::lemma_byte_len_add(before, block);
            }
        },
    }
}

/// The last lines of a log.
pub open spec fn tail_of(bytes: Seq<u8>, most: nat) -> Seq<char> {
    lines::joined_lines(lines::last_of(lines::lines_of(lines::lossy(bytes)), most))
}

/// The last lines of a log, joined.
pub fn tail_lines(bytes: &[u8], max_lines: usize) -> (r: String)
    ensures
        r@ == tail_of(bytes@, max_lines as nat),
{
    let whole = lossy_text(bytes);
    let all = lines::lines(whole.as_str());
    let from: usize = if all.len() > max_lines {
        all.len() - max_lines
    } else {
        0
    };
    let last = vstd::slice::slice_subrange(all.as_slice(), from, all.len());
    assert(lines::views(last@) =~= lines::last_of(lines::views(all@), max_lines as nat));
    join_lines(last)
}

/// What a failed run left behind.
pub struct FailureContext<'a> {
    /// The log of the application.
    pub game_log: &'a str,
    /// The log of the driver.
    pub driver_log: Option<&'a str>,
    /// The newest capture.
    pub newest_capture: Option<&'a str>,
    /// The end of the log of the application, where it could be read.
    pub game_tail: Option<&'a [u8]>,
    /// The end of the log of the driver, where it could be read.
    pub driver_tail: Option<&'a [u8]>,
    /// The diagnostic context.
    pub context: Option<&'a Json>,
}

/// A line that names a path.
pub open spec fn path_line(label: Seq<char>, path: Option<Seq<char>>) -> Seq<char> {
    match path {
        Some(path) => (label + path).push('\n'),
        None => Seq::empty(),
    }
}

/// The view of an optional text.
pub open spec fn opt_str(t: Option<&str>) -> Option<Seq<char>> {
    match t {
        Some(s) => Some(s@),
        None => None,
    }
}

/// The last twenty lines of a log, with a heading. An empty log has none.
pub open spec fn tail_block(heading: Seq<char>, tail: Option<&[u8]>) -> Seq<char> {
    match tail {
        Some(bytes) => if tail_of(bytes@, 20).len() == 0 {
            Seq::empty()
        } else {
            (heading + tail_of(bytes@, 20)).push('\n')
        },
        None => Seq::empty(),
    }
}

/// What a failure summary says of a failed run.
pub open spec fn failure_context(c: FailureContext) -> Seq<char> {
    path_line("game log: "@, Some(c.game_log@)) + path_line("driver log: "@, opt_str(c.driver_log))
        + path_line("newest capture: "@, opt_str(c.newest_capture)) + tail_block(
        "last 20 game.log lines:\n"@,
        c.game_tail,
    ) + (if c.driver_log is Some {
        tail_block("last 20 driver.log lines:\n"@, c.driver_tail)
    } else {
        Seq::empty()
    }) + context_block(
        match c.context {
            Some(json) => Some(json@),
            None => None,
        },
    )
}

pub(crate) fn push_path(out: &mut String, label: &str, path: Option<&str>)
    ensures
        final(out)@ == old(out)@ + path_line(label@, opt_str(path)),
{
    let ghost before = out@;
    match path {
        Some(path) => {
            out.append(label);
            out.append(path);
            out.push('\n');
            assert(out@ =~= before + (label@ + path@).push('\n'));
        },
        None => {
            assert(out@ =~= before + Seq::<char>::empty());
        },
    }
}

fn push_tail(out: &mut String, heading: &str, tail: Option<&[u8]>)
    ensures
        final(out)@ == old(out)@ + tail_block(heading@, tail),
{
    let ghost before = out@;
    match tail {
        Some(bytes) => {
            let text = tail_lines(bytes, 20);
            if text.as_str().is_empty() {
                assert(out@ =~= before + Seq::<char>::empty());
            } else {
                out.append(heading);
                out.append(text.as_str());
                out.push('\n');
                assert(out@ =~= before + (heading@ + text@).push('\n'));
            }
        },
        None => {
            assert(out@ =~= before + Seq::<char>::empty());
        },
    }
}

/// Adds to a failure summary what a failed run left behind.
pub fn append_failure_context(failure_summary: &mut String, c: &FailureContext)
    ensures
        final(failure_summary)@ == old(failure_summary)@ + failure_context(*c),
{
    let ghost before = failure_summary@;
    push_path(failure_summary, "game log: ", Some(c.game_log));
    push_path(failure_summary, "driver log: ", c.driver_log);
    push_path(failure_summary, "newest capture: ", c.newest_capture);
    push_tail(failure_summary, "last 20 game.log lines:\n", c.game_tail);
    if c.driver_log.is_some() {
        push_tail(failure_summary, "last 20 driver.log lines:\n", c.driver_tail);
    }
    append_transcript_context(failure_summary, c.context);
    assert(failure_summary@ =~= before + failure_context(*c));
}

/// The summary of a failure, as it is written beside the run.
pub fn write_failure_artifacts(message: &str, c: &FailureContext) -> (r: String)
    ensures
        r@ == message@.push('\n') + failure_context(*c),
{
    let mut summary = String::new();
    summary.append(message);
    summary.push('\n');
    assert(summary@ =~= message@.push('\n'));
    append_failure_context(&mut summary, c);
    summary
}

/// What is said of a failed run: where it kept what it found, and its summary.
pub fn fail_run(artifacts: &str, failure_summary: &str) -> (r: String)
    ensures
        r@ == "run failed; artifacts: "@ + artifacts@ + "\n"@ + lines::trimmed_end(
            failure_summary@,
        ),
{
    cat4("run failed; artifacts: ", artifacts, "\n", trim_end(failure_summary).as_str())
}

/// The file name ends in `.png` and has something before that.
pub open spec fn png_name(name: Seq<char>) -> bool {
    name.len() > 4 && ".png"@.is_suffix_of(name)
}

/// Tells whether a file name has the extension `png`.
pub fn is_png(name: &str) -> (r: bool)
    ensures
        r == png_name(name@),
{
    let v = chars_of(name);
    proof {
        reveal_strlit(".png");
    }
    let n: usize = v.len();
    if n <= 4 {
        return false;
    }
    let r = v[n - 4] == '.' && v[n - 3] == 'p' && v[n - 2] == 'n' && v[n - 1] == 'g';
    proof {
        let end = name@.subrange(n - 4, n as int);
        assert(end.len() == 4);
        assert(end[0] == v@[n - 4] && end[1] == v@[n - 3] && end[2] == v@[n - 2] && end[3]
            == v@[n - 1]);
        if r {
            assert(end =~= ".png"@);
        }
    }
    r
}

/// A file of a directory, with the time of its last change in nanoseconds since the Unix epoch.
pub struct FoundFile {
    /// The path.
    pub path: String,
    /// The file name.
    pub name: String,
    /// When it was last changed; the epoch itself where that is unknown.
    pub modified: i128,
}

/// The file at this place is the first of the newest pictures.
pub open spec fn newest_at(files: Seq<FoundFile>, i: int) -> bool {
    &&& 0 <= i < files.len()
    &&& png_name(files[i].name@)
    &&& forall|j: int|
        0 <= j < files.len() && png_name(#[trigger] files[j].name@) ==> files[j].modified
            <= files[i].modified
    &&& forall|j: int|
        0 <= j < i && png_name(#[trigger] files[j].name@) ==> files[j].modified
            < files[i].modified
}

/// Finds the newest picture of a directory; of equally new ones the first.
pub fn newest_png(files: &[FoundFile]) -> (r: Option<usize>)
    ensures
        match r {
            Some(i) => newest_at(files@, i as int),
            None => forall|j: int| 0 <= j < files@.len() ==> !png_name(#[trigger] files@[j].name@),
        },
{
    let mut newest: Option<usize> = None;
    let mut i: usize = 0;
    while i < files.len()
        invariant
            i <= files@.len(),
            match newest {
                Some(n) => newest_at(files@.take(i as int), n as int),
                None => forall|j: int| 0 <= j < i ==> !png_name(#[trigger] files@[j].name@),
            },
        decreases files@.len() - i,
    {
        let ghost seen = files@.take(i as int);
        let ghost more = files@.take(i + 1);
        if is_png(files[i].name.as_str()) {
            let better = match newest {
                Some(n) => files[i].modified > files[n].modified,
                None => true,
            };
            if better {
                assert(newest_at(more, i as int)) by {
                    assert forall|j: int| 0 <= j < i && png_name(#[trigger] more[j].name@) implies
                        more[j].modified < more[i as int].modified by {
                        assert(seen[j] == more[j]);
                        assert(png_name(seen[j].name@));
                    }
                }
                newest = Some(i);
            } else {
                assert(newest_at(more, newest->0 as int)) by {
                    assert forall|j: int| 0 <= j < more.len() && png_name(
                        #[trigger] more[j].name@,
                    ) implies more[j].modified <= more[newest->0 as int].modified by {
                        if j < i {
                            assert(seen[j] == more[j]);
                            assert(png_name(seen[j].name@));
                        }
                    }
                    assert forall|j: int| 0 <= j < newest->0 && png_name(
                        #[trigger] more[j].name@,
                    ) implies more[j].modified < more[newest->0 as int].modified by {
                        assert(seen[j] == more[j]);
                        assert(png_name(seen[j].name@));
                    }
                }
            }
        } else {
            if newest.is_some() {
                assert(newest_at(more, newest->0 as int)) by {
                    assert forall|j: int| 0 <= j < more.len() && png_name(
                        #[trigger] more[j].name@,
                    ) implies more[j].modified <= more[newest->0 as int].modified by {
                        assert(j < i);
                        assert(seen[j] == more[j]);
                        assert(png_name(seen[j].name@));
                    }
                    assert forall|j: int| 0 <= j < newest->0 && png_name(
                        #[trigger] more[j].name@,
                    ) implies more[j].modified < more[newest->0 as int].modified by {
                        assert(seen[j] == more[j]);
                        assert(png_name(seen[j].name@));
                    }
                }
            }
        }
        i = i + 1;
    }
    assert(files@.take(files@.len() as int) =~= files@);
    newest
}

/// The names come in order.
pub open spec fn in_order(names: Seq<Seq<char>>) -> bool {
    forall|i: int, j: int| 0 <= i <= j < names.len() ==> text::at_most(#[trigger] names[i], #[trigger]
        names[j])
}

/// The pictures among some file names.
pub open spec fn pictures(names: Seq<Seq<char>>) -> Seq<Seq<char>> {
    names.filter(|name: Seq<char>| png_name(name))
}

/// The pictures of a directory, in the order of their names: what is copied beside a run.
pub fn captures_to_copy(names: &[String]) -> (r: Vec<String>)
    ensures
        in_order(lines::views(r@)),
        lines::views(r@).to_multiset() == pictures(lines::views(names@)).to_multiset(),
{
    let mut out: Vec<String> = Vec::new();
    let mut i: usize = 0;
    let ghost all = lines::views(names@);
    let ghost keep = |name: Seq<char>| png_name(name);
    proof {
        reveal(Seq::filter);
        assert(all.take(0) =~= Seq::<Seq<char>>::empty());
        assert(lines::views(out@) =~= Seq::<Seq<char>>::empty());
        assert(pictures(all.take(0)) =~= Seq::<Seq<char>>::empty());
    }
    while i < names.len()
        invariant
            i <= names@.len(),
            all == lines::views(names@),
            keep == (|name: Seq<char>| png_name(name)),
            in_order(lines::views(out@)),
            lines::views(out@).to_multiset() == pictures(all.take(i as int)).to_multiset(),
        decreases names@.len() - i,
    {
        proof {
            reveal(Seq::filter);
            let next = all.take(i + 1);
            assert(next.drop_last() =~= all.take(i as int));
            assert(next.last() == names@[i as int]@);
        }
        if is_png(names[i].as_str()) {
            let ghost before = lines::views(out@);
            insert_in_order(&mut out, names[i].clone());
            proof {
                broadcast use vstd::seq_lib::group_to_multiset_ensures;

                assert(pictures(all.take(i + 1)) =~= pictures(all.take(i as int)).push(
                    names@[i as int]@,
                ));
            }
        } else {
            assert(pictures(all.take(i + 1)) =~= pictures(all.take(i as int)));
        }
        i = i + 1;
    }
    assert(all.take(names@.len() as int) =~= all);
    out
}

fn insert_in_order(out: &mut Vec<String>, name: String)
    requires
        in_order(lines::views(old(out)@)),
    ensures
        in_order(lines::views(final(out)@)),
        lines::views(final(out)@).to_multiset() == lines::views(old(out)@).to_multiset().insert(
            name@,
        ),
{
    let ghost before = lines::views(out@);
    let mut at: usize = out.len();
    while at > 0 && !text_at_most(out[at - 1].as_str(), name.as_str())
        invariant
            at <= out@.len(),
            before == lines::views(out@),
            in_order(before),
            forall|j: int| at <= j < before.len() ==> text::at_most(name@, #[trigger] before[j]),
        decreases at,
    {
        proof {
            text::lemma_at_most_total(before[at - 1], name@);
        }
        at = at - 1;
    }
    proof {
        if at > 0 {
            assert(text::at_most(before[at - 1], name@));
        }
        assert forall|j: int| 0 <= j < at implies text::at_most(#[trigger] before[j], name@) by {
            text::lemma_at_most_transitive(before[j], before[at - 1], name@);
        }
        text::lemma_at_most_total(name@, name@);
    }
    out.insert(at, name);
    proof {
        let after = lines::views(out@);
        assert(after =~= before.insert(at as int, name@));
        assert forall|i: int, j: int| 0 <= i <= j < after.len() implies text::at_most(
            #[trigger] after[i],
            #[trigger] after[j],
        ) by {
            let p = if i < at {
                i
            } else {
                i - 1
            };
            let q = if j < at {
                j
            } else {
                j - 1
            };
            if i != at && j != at {
                assert(text::at_most(before[p], before[q]));
            }
        }
        vstd::seq_lib::to_multiset_insert(before, at as int, name@);
    }
}

/// The most screenshots that are listed.
pub const LISTED_SCREENSHOTS: usize = 10;

/// What is printed of the screenshots of a run.
pub open spec fn screenshot_listing(paths: Seq<Seq<char>>) -> Seq<Seq<char>> {
    if paths.len() == 0 {
        seq!["screenshots: none captured"@]
    } else {
        let shown = if paths.len() > LISTED_SCREENSHOTS {
            LISTED_SCREENSHOTS as nat
        } else {
            paths.len()
        };
        let head = seq!["screenshots ("@ + text::digits(paths.len()) + "):"@] + Seq::new(
            shown,
            |i: int| "  "@ + paths[i],
        );
        if paths.len() > LISTED_SCREENSHOTS {
            head.push("  +"@ + text::digits((paths.len() - LISTED_SCREENSHOTS) as nat) + " more"@)
        } else {
            head
        }
    }
}

/// Lists the screenshots of a run, the first ten of them by their paths.
pub fn print_screenshots(paths: &[String]) -> (r: Vec<String>)
    ensures
        lines::views(r@) == screenshot_listing(lines::views(paths@)),
{
    let mut out: Vec<String> = Vec::new();
    let ghost all = lines::views(paths@);
    if paths.len() == 0 {
        out.push("screenshots: none captured".to_owned());
        assert(lines::views(out@) =~= seq!["screenshots: none captured"@]);
        return out;
    }
    out.push(cat3("screenshots (", decimal(paths.len() as u128).as_str(), "):"));
    let ghost first = "screenshots ("@ + text::digits(all.len()) + "):"@;
    let mut i: usize = 0;
    while i < paths.len() && i < LISTED_SCREENSHOTS
        invariant
            i <= paths@.len(),
            i <= LISTED_SCREENSHOTS,
            all == lines::views(paths@),
            lines::views(out@) == seq![first] + Seq::new(i as nat, |k: int| "  "@ + all[k]),
        decreases paths@.len() - i,
    {
        let line = text::cat2("  ", paths[i].as_str());
        proof {
            lines::lemma_views_push(out@, line);
            assert(line@ == "  "@ + all[i as int]);
            assert((seq![first] + Seq::new(i as nat, |k: int| "  "@ + all[k])).push(line@)
                =~= seq![first] + Seq::new((i + 1) as nat, |k: int| "  "@ + all[k]));
        }
        out.push(line);
        i = i + 1;
    }
    if paths.len() > LISTED_SCREENSHOTS {
        let line = cat3("  +", decimal((paths.len() - LISTED_SCREENSHOTS) as u128).as_str(), " more");
        proof {
            lines::lemma_views_push(out@, line);
        }
        out.push(line);
    }
    assert(lines::views(out@) =~= screenshot_listing(all));
    out
}

/// The answer in a line of a transcript, where the line is no longer than is read and is a record
/// with one.
pub open spec fn answer_in_line(line: Seq<u8>) -> Option<JsonValue> {
    if line.len() <= 65536 && json::parsed_json_bytes(line) is Ok {
        json::value_at(json::parsed_json_bytes(line)->Ok_0, "response"@)
    } else {
        None
    }
}

/// A line tells of an error: its answer has a context for it other than null.
pub open spec fn tells_error(line: Seq<u8>, context: JsonValue) -> bool {
    &&& answer_in_line(line) is Some
    &&& json::value_at2(answer_in_line(line)->Some_0, "error"@, "context"@) == Some(context)
    &&& !(context is Null)
}

/// A line tells of details: its answer has no context of an error, and has details other than null
/// under a status that carries them.
pub open spec fn tells_details(line: Seq<u8>, details: JsonValue) -> bool {
    &&& answer_in_line(line) is Some
    &&& forall|context: JsonValue| !#[trigger] tells_error(line, context)
    &&& json::value_at2(answer_in_line(line)->Some_0, "result"@, "details"@) == Some(details)
    &&& !(details is Null)
    &&& json::text_in(
        json::value_at2(answer_in_line(line)->Some_0, "result"@, "status"@),
    ) matches Some(status)
    &&& diagnostic_answer(status, json::parsed_json_bytes(line)->Ok_0, "clicked_target"@)
}

/// Law: of the errors that a transcript tells of, the latest is remembered, and of the details the
/// latest; what no line tells of is not made up. The context of an error is what is reported
/// wherever there is one, however old.
pub proof fn law_the_latest_is_remembered(lines: Seq<Seq<u8>>)
    ensures
        forall|i: int, context: JsonValue|
            0 <= i < lines.len() && #[trigger] tells_error(lines[i], context) && (forall|
                k: int,
                other: JsonValue,
            |
                i < k < lines.len() ==> !#[trigger] tells_error(lines[k], other)) ==> told_by(
                lines,
            ).error == Some(context) && context_found(told_by(lines)) == Some(context),
        (forall|i: int, context: JsonValue|
            0 <= i < lines.len() ==> !#[trigger] tells_error(lines[i], context)) ==> told_by(
            lines,
        ).error is None && context_found(told_by(lines)) == told_by(lines).details,
        forall|i: int, details: JsonValue|
            0 <= i < lines.len() && #[trigger] tells_details(lines[i], details) && (forall|
                k: int,
                other: JsonValue,
            |
                i < k < lines.len() ==> !#[trigger] tells_details(lines[k], other)) ==> told_by(
                lines,
            ).details == Some(details),
        (forall|i: int, details: JsonValue|
            0 <= i < lines.len() ==> !#[trigger] tells_details(lines[i], details)) ==> told_by(
            lines,
        ).details is None,
    decreases lines.len(),
{
    if lines.len() > 0 {
        let before = lines.drop_last();
        let last = lines.last();
        let n = lines.len() - 1;
        law_the_latest_is_remembered(before);
        lemma_line_tells(told_by(before), last);
        let now = told_by(lines);
        assert(lines[n] == last);
        assert(forall|i: int| 0 <= i < before.len() ==> #[trigger] before[i] == lines[i]);
        assert forall|i: int, context: JsonValue|
            0 <= i < lines.len() && #[trigger] tells_error(lines[i], context) && (forall|
                k: int,
                other: JsonValue,
            |
                i < k < lines.len() ==> !#[trigger] tells_error(lines[k], other)) implies now.error
            == Some(context) && context_found(now) == Some(context) by {
            if i < n {
                assert forall|other: JsonValue| !#[trigger] tells_error(last, other) by {
                    assert(!tells_error(lines[n], other));
                }
                assert(tells_error(before[i], context));
                assert forall|k: int, other: JsonValue|
                    i < k < before.len() implies !#[trigger] tells_error(before[k], other) by {
                    assert(!tells_error(lines[k], other));
                }
            }
        }
        if forall|i: int, context: JsonValue|
            0 <= i < lines.len() ==> !#[trigger] tells_error(lines[i], context) {
            assert forall|other: JsonValue| !#[trigger] tells_error(last, other) by {
                assert(!tells_error(lines[n], other));
            }
            assert forall|i: int, context: JsonValue|
                0 <= i < before.len() implies !#[trigger] tells_error(before[i], context) by {
                assert(!tells_error(lines[i], context));
            }
        }
        assert forall|i: int, details: JsonValue|
            0 <= i < lines.len() && #[trigger] tells_details(lines[i], details) && (forall|
                k: int,
                other: JsonValue,
            |
                i < k < lines.len() ==> !#[trigger] tells_details(
                    lines[k],
                    other,
                )) implies now.details == Some(details) by {
            if i < n {
                assert forall|other: JsonValue| !#[trigger] tells_details(last, other) by {
                    assert(!tells_details(lines[n], other));
                }
                assert(tells_details(before[i], details));
                assert forall|k: int, other: JsonValue|
                    i < k < before.len() implies !#[trigger] tells_details(before[k], other) by {
                    assert(!tells_details(lines[k], other));
                }
            }
        }
        if forall|i: int, details: JsonValue|
            0 <= i < lines.len() ==> !#[trigger] tells_details(lines[i], details) {
            assert forall|other: JsonValue| !#[trigger] tells_details(last, other) by {
                assert(!tells_details(lines[n], other));
            }
            assert forall|i: int, details: JsonValue|
                0 <= i < before.len() implies !#[trigger] tells_details(before[i], details) by {
                assert(!tells_details(lines[i], details));
            }
        }
    }
}

proof fn lemma_line_tells(found: FoundView, line: Seq<u8>)
    ensures
        ({
            let now = if line.len() > TRANSCRIPT_LINE_MAX_BYTES {
                found
            } else {
                remembered_line(found, line)
            };
            &&& forall|context: JsonValue| #[trigger]
                tells_error(line, context) ==> now.error == Some(context)
            &&& (forall|context: JsonValue| !#[trigger] tells_error(line, context)) ==> now.error
                == found.error
            &&& forall|details: JsonValue| #[trigger]
                tells_details(line, details) ==> now.details == Some(details)
            &&& (forall|details: JsonValue| !#[trigger] tells_details(line, details))
                ==> now.details == found.details
        }),
{
    if answer_in_line(line) is Some {
        let response = answer_in_line(line)->Some_0;
        let context = json::value_at2(response, "error"@, "context"@);
        if json::not_null(context) is Some {
            assert(tells_error(line, context->Some_0));
        } else {
            assert forall|other: JsonValue| !#[trigger] tells_error(line, other) by {}
            let details = json::value_at2(response, "result"@, "details"@);
            if json::not_null(details) is Some {
                let status = json::text_in(json::value_at2(response, "result"@, "status"@));
                if status is Some && diagnostic_answer(
                    status->Some_0,
                    json::parsed_json_bytes(line)->Ok_0,
                    "clicked_target"@,
                ) {
                    assert(tells_details(line, details->Some_0));
                }
            }
        }
    }
}

} // verus!
