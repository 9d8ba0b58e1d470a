//! The server side of the socket: lines out of bytes, requests out of lines, and answers in time.
use vstd::prelude::*;

use crate::commands::ParseLimits;
use crate::json;
use crate::json::Json;
use crate::lines;
use crate::lines::{lossy_text, trim};
use crate::responses::AgentResponse;
use crate::span;
use crate::span::{Span, NANOS_PER_MILLI};
use crate::text;
use crate::text::{cat3, decimal};
use crate::transcript;
use crate::wire;
use crate::wire::{parse_request_with_limits, AgentRequestBody};

verus! {

/// The most bytes that may wait for the end of their line.
pub const MAX_LINE_BYTES: usize = 8192;

/// What is said where no application takes requests any more.
pub const QUEUE_CLOSED: &'static str = "game command queue is closed; game likely exited - check game.log";

/// Bytes that wait for the end of their line.
pub struct LineBuffer {
    /// The bytes.
    pub pending: Vec<u8>,
}

/// What came of some more bytes.
pub enum Received {
    /// The line is too long.
    TooLong,
    /// The lines that were completed.
    Lines(Vec<String>),
}

/// The bytes as the text of a request.
pub open spec fn request_text(line: Seq<u8>) -> Seq<char> {
    lines::trimmed(lines::lossy(line))
}

/// The requests among some lines: those that are more than white space.
pub open spec fn requests_in(list: Seq<Seq<u8>>) -> Seq<Seq<char>>
    decreases list.len(),
{
    if list.len() == 0 {
        Seq::empty()
    } else {
        let before = requests_in(list.drop_last());
        let last = request_text(list.last());
        if last.len() == 0 {
            before
        } else {
            before.push(last)
        }
    }
}

/// The lines of some bytes, each with its line feed.
pub open spec fn ended_lines(bytes: Seq<u8>) -> Seq<Seq<u8>> {
    let all = transcript::complete_lines(bytes);
    Seq::new(all.len(), |i: int| all[i].push(10))
}

/// What taking in some more bytes does: `before` waited, and `after` waits now.
pub open spec fn receive_agrees(
    before: Seq<u8>,
    chunk: Seq<u8>,
    after: Seq<u8>,
    r: Received,
) -> bool {
    match r {
        Received::TooLong => before.len() + chunk.len() > MAX_LINE_BYTES && after == before,
        Received::Lines(texts) => {
            let all = before + chunk;
            &&& all.len() <= MAX_LINE_BYTES
            &&& lines::views(texts@) == requests_in(ended_lines(all))
            &&& after == transcript::open_line(all)
        },
    }
}

impl LineBuffer {
    /// A buffer without bytes.
    pub fn new() -> (r: LineBuffer)
        ensures
            r.pending@ == Seq::<u8>::empty(),
    {
        LineBuffer { pending: Vec::new() }
    }

    /// Takes in some more bytes and gives the requests that they complete.
    pub fn receive(&mut self, chunk: &[u8]) -> (r: Received)
        ensures
            receive_agrees(old(self).pending@, chunk@, final(self).pending@, r),
    {
        if chunk.len() > MAX_LINE_BYTES || self.pending.len() > MAX_LINE_BYTES - chunk.len() {
            return Received::TooLong;
        }
        let ghost all = self.pending@ + chunk@;
        let mut bytes: Vec<u8> = Vec::new();
        bytes.append(&mut self.pending);
        bytes.extend_from_slice(chunk);
        assert(bytes@ =~= all);
        let mut texts: Vec<String> = Vec::new();
        let mut line: Vec<u8> = Vec::new();
        let mut i: usize = 0;
        proof {
            assert(all.take(0) =~= Seq::<u8>::empty());
            assert(ended_lines(all.take(0)) =~= Seq::<Seq<u8>>::empty());
            assert(lines::views(texts@) =~= requests_in(ended_lines(all.take(0))));
        }
        while i < bytes.len()
            invariant
                i <= bytes@.len(),
                bytes@ == all,
                line@ == transcript::open_line(all.take(i as int)),
                lines::views(texts@) == requests_in(ended_lines(all.take(i as int))),
            decreases bytes@.len() - i,
        {
            let byte = bytes[i];
            let ghost now = all.take(i as int);
            let ghost next = all.take(i + 1);
            proof {
                assert(next.drop_last() =~= now);
                assert(next.last() == byte);
            }
            if byte == 10 {
                line.push(byte);
                let ghost ended = line@;
                let whole = lossy_text(line.as_slice());
                let request = trim(whole.as_str());
                proof {
                    assert(ended_lines(next) =~= ended_lines(now).push(ended));
                    assert(ended_lines(next).drop_last() =~= ended_lines(now));
                }
                if !request.as_str().is_empty() {
                    proof {
                        lines::lemma_views_push(texts@, request);
                    }
                    texts.push(request);
                }
                line = Vec::new();
            } else {
                line.push(byte);
                assert(ended_lines(next) =~= ended_lines(now));
            }
            i = i + 1;
        }
        assert(all.take(all.len() as int) =~= all);
        self.pending = line;
        Received::Lines(texts)
    }
}

/// Law: bytes wait for the end of their line, and nothing else does: what waits has no line feed in
/// it and is within the bound.
pub proof fn law_pending_is_one_line(bytes: Seq<u8>)
    ensures
        transcript::open_line(bytes).len() <= bytes.len(),
        forall|i: int|
            0 <= i < transcript::open_line(bytes).len() ==> #[trigger] transcript::open_line(
                bytes,
            )[i] != 10,
    decreases bytes.len(),
{
    if bytes.len() > 0 && bytes.last() != 10 {
        law_pending_is_one_line(bytes.drop_last());
    }
}

/// Law: how bytes are cut into pieces does not matter to the lines that they make.
pub proof fn law_lines_ignore_pieces(a: Seq<u8>, b: Seq<u8>)
    ensures
        transcript::complete_lines(a + b) == transcript::complete_lines(a)
            + transcript::complete_lines(transcript::open_line(a) + b),
        transcript::open_line(a + b) == transcript::open_line(transcript::open_line(a) + b),
    decreases b.len(),
{
    let rest = transcript::open_line(a);
    if b.len() == 0 {
        assert(a + b =~= a);
        assert(rest + b =~= rest);
        lemma_open_line_is_open(a);
        assert(transcript::complete_lines(a) =~= transcript::complete_lines(a)
            + transcript::complete_lines(rest));
    } else {
        law_lines_ignore_pieces(a, b.drop_last());
        assert((a + b).drop_last() =~= a + b.drop_last());
        assert((rest + b).drop_last() =~= rest + b.drop_last());
        assert(transcript::complete_lines(a + b) =~= transcript::complete_lines(a)
            + transcript::complete_lines(rest + b));
    }
}

proof fn lemma_open_line_is_open(bytes: Seq<u8>)
    ensures
        transcript::complete_lines(transcript::open_line(bytes)) == Seq::<Seq<u8>>::empty(),
        transcript::open_line(transcript::open_line(bytes)) == transcript::open_line(bytes),
    decreases bytes.len(),
{
    if bytes.len() > 0 && bytes.last() != 10 {
        lemma_open_line_is_open(bytes.drop_last());
        let rest = transcript::open_line(bytes.drop_last());
        assert(rest.push(bytes.last()).drop_last() =~= rest);
    }
}

/// The answer to a line that is too long.
pub fn too_long() -> (r: AgentResponse)
    ensures
        r.is_error(Json::Null, "line_too_long", "request exceeds 8192 bytes"@),
{
    AgentResponse::failed(Json::Null, "line_too_long", "request exceeds 8192 bytes".to_owned())
}

/// The answer where the socket fails.
pub fn socket_error(message: String) -> (r: AgentResponse)
    ensures
        r.is_error(Json::Null, "socket_error", message@),
{
    AgentResponse::failed(Json::Null, "socket_error", message)
}

/// The answer `r` refuses what `e` refuses.
pub open spec fn refuses(r: AgentResponse, e: wire::ParseRequestError) -> bool {
    r.is_error(e.id, e.code, e.message@) && r.error->Some_0.context is None
}

/// The line reads as this request, or as this error.
pub open spec fn reads_as(
    line: Seq<char>,
    limits: ParseLimits,
    parsed: Result<AgentRequestBody, wire::ParseRequestError>,
) -> bool {
    match json::parsed_json(line) {
        Err(m) => wire::fails(parsed, Json::Null, "invalid_request", m),
        Ok(value) => exists|request: Json|
            request@ == value && json::canonical(request) && #[trigger] wire::request_agrees(
                request,
                limits,
                parsed,
            ),
    }
}

/// The line is taken up as its request, or answered with its error.
pub open spec fn taken_up(
    parsed: Result<AgentRequestBody, wire::ParseRequestError>,
    r: Result<AgentRequestBody, AgentResponse>,
) -> bool {
    match (parsed, r) {
        (Ok(a), Ok(b)) => a == b,
        (Err(e), Err(answer)) => refuses(answer, e),
        _ => false,
    }
}

/// Reads a line as a request, or answers what is wrong with it.
pub fn handle_line(line: &str, limits: ParseLimits) -> (r: Result<AgentRequestBody, AgentResponse>)
    requires
        limits.wf(),
    ensures
        exists|parsed: Result<AgentRequestBody, wire::ParseRequestError>| #[trigger]
            reads_as(line@, limits, parsed) && taken_up(parsed, r),
{
    let parsed = parse_request_with_limits(line, limits);
    let ghost told = parsed;
    assert(reads_as(line@, limits, told));
    match parsed {
        Ok(request) => Ok(request),
        Err(error) => Err(AgentResponse::failed(error.id, error.code, error.message)),
    }
}

/// The answer where too many requests wait.
pub fn queue_full(id: Json) -> (r: AgentResponse)
    ensures
        r.is_error(id, "queue_full", "game command queue is full"@),
{
    AgentResponse::failed(id, "queue_full", "game command queue is full".to_owned())
}

/// The answer where no application takes requests any more.
pub fn queue_closed(id: Json) -> (r: AgentResponse)
    ensures
        r.is_error(id, "closed", QUEUE_CLOSED@),
{
    AgentResponse::failed(id, "closed", QUEUE_CLOSED.to_owned())
}

/// The answer where the application did not answer in time.
pub fn timed_out(id: Json, timeout: Span) -> (r: AgentResponse)
    ensures
        r.is_error(
            id,
            "timeout",
            "game did not answer within "@ + text::digits((timeout.nanos / NANOS_PER_MILLI) as nat)
                + " ms"@,
        ),
{
    let message = cat3("game did not answer within ", decimal(timeout.as_millis()).as_str(), " ms");
    AgentResponse::failed(id, "timeout", message)
}

/// The result `r` is how long to look for the answer before looking at the socket again.
pub open spec fn reply_wait_agrees(elapsed: Span, timeout: Span, r: Option<Span>) -> bool {
    match r {
        None => elapsed.nanos >= timeout.nanos,
        Some(wait) => elapsed.nanos < timeout.nanos && wait == span::span_min(
            span::span_beyond(timeout, elapsed),
            (Span { nanos: 20_000_000 }),
        ) && wait.nanos > 0,
    }
}

/// How long to look for the answer before looking at the socket again: at most twenty
/// milliseconds, and nothing once the time is over.
pub fn reply_wait(elapsed: Span, timeout: Span) -> (r: Option<Span>)
    ensures
        reply_wait_agrees(elapsed, timeout, r),
{
    let remaining = timeout.beyond(elapsed);
    if remaining.is_zero() {
        None
    } else {
        Some(remaining.shorter(Span::from_millis(20)))
    }
}

/// What a look for the answer showed.
#[derive(Clone, Copy, Debug, PartialEq, Eq, Structural)]
pub enum Polled {
    /// The answer is there.
    Answered,
    /// It is not there yet.
    Pending,
    /// It will never be there.
    Disconnected,
}

/// What to do after a look for the answer.
#[derive(Clone, Copy, Debug, PartialEq, Eq, Structural)]
pub enum ReplyStep {
    /// Send the answer.
    Send,
    /// Say that no application takes requests any more.
    Closed,
    /// Cancel the request: the client is gone.
    Gone,
    /// Cancel the request and say that there was no answer in time.
    TimedOut,
    /// Look again.
    Again,
}

/// What to do after a look for the answer. The last look is the one after the time is over.
pub open spec fn reply_step_of(polled: Polled, last: bool, client_gone: bool) -> ReplyStep {
    match polled {
        Polled::Answered => ReplyStep::Send,
        Polled::Disconnected => ReplyStep::Closed,
        Polled::Pending => if last {
            ReplyStep::TimedOut
        } else if client_gone {
            ReplyStep::Gone
        } else {
            ReplyStep::Again
        },
    }
}

/// Decides what to do after a look for the answer.
pub fn wait_for_response(polled: Polled, last: bool, client_gone: bool) -> (r: ReplyStep)
    ensures
        r == reply_step_of(polled, last, client_gone),
{
    match polled {
        Polled::Answered => ReplyStep::Send,
        Polled::Disconnected => ReplyStep::Closed,
        Polled::Pending => if last {
            ReplyStep::TimedOut
        } else if client_gone {
            ReplyStep::Gone
        } else {
            ReplyStep::Again
        },
    }
}

/// Law: an answer that is there is sent, however late the look and whether or not the client seems
/// gone; a request is canceled only where no answer is there.
pub proof fn law_queued_answer_wins(polled: Polled, last: bool, client_gone: bool)
    ensures
        polled == Polled::Answered ==> reply_step_of(polled, last, client_gone) == ReplyStep::Send,
        reply_step_of(polled, last, client_gone) == ReplyStep::TimedOut || reply_step_of(
            polled,
            last,
            client_gone,
        ) == ReplyStep::Gone ==> polled == Polled::Pending,
        last ==> reply_step_of(polled, last, client_gone) != ReplyStep::Again,
{
}

/// Some texts one after the other.
pub open spec fn joined(parts: Seq<Seq<u8>>) -> Seq<u8>
    decreases parts.len(),
{
    if parts.len() == 0 {
        Seq::empty()
    } else {
        joined(parts.drop_last()) + parts.last()
    }
}

/// Law: no byte is lost or moved. The lines of some bytes, one after the other, and the open line
/// behind them are the bytes; each line ends with a line feed and has no other.
pub proof fn law_lines_hold_every_byte(bytes: Seq<u8>)
    ensures
        joined(ended_lines(bytes)) + transcript::open_line(bytes) == bytes,
        forall|i: int|
            0 <= i < ended_lines(bytes).len() ==> (#[trigger] ended_lines(bytes)[i]).len() > 0
                && ended_lines(bytes)[i].last() == 10,
        forall|i: int, k: int|
            0 <= i < ended_lines(bytes).len() && 0 <= k < ended_lines(bytes)[i].len() - 1
                ==> #[trigger] ended_lines(bytes)[i][k] != 10,
        forall|k: int|
            0 <= k < transcript::open_line(bytes).len() ==> #[trigger] transcript::open_line(
                bytes,
            )[k] != 10,
    decreases bytes.len(),
{
    law_pending_is_one_line(bytes);
    if bytes.len() == 0 {
        assert(joined(ended_lines(bytes)) + transcript::open_line(bytes) =~= bytes);
    } else {
        let before = bytes.drop_last();
        law_lines_hold_every_byte(before);
        let open = transcript::open_line(before);
        let ended = ended_lines(before);
        if bytes.last() == 10 {
            let line = open.push(10);
            assert(ended_lines(bytes) =~= ended.push(line));
            assert(ended_lines(bytes).drop_last() =~= ended);
            assert(joined(ended_lines(bytes)) == joined(ended) + line);
            assert(bytes =~= before.push(10));
            assert(joined(ended) + line =~= (joined(ended) + open).push(10));
            assert(transcript::open_line(bytes) =~= Seq::<u8>::empty());
            assert(joined(ended_lines(bytes)) + transcript::open_line(bytes) =~= bytes);
            assert forall|i: int, k: int|
                0 <= i < ended_lines(bytes).len() && 0 <= k < ended_lines(bytes)[i].len()
                    - 1 implies #[trigger] ended_lines(bytes)[i][k] != 10 by {
                if i == ended.len() {
                    assert(ended_lines(bytes)[i][k] == open[k]);
                } else {
                    assert(ended_lines(bytes)[i] == ended[i]);
                    assert(ended[i][k] != 10);
                }
            }
            assert forall|i: int| 0 <= i < ended_lines(bytes).len() implies (
            #[trigger] ended_lines(bytes)[i]).len() > 0 && ended_lines(bytes)[i].last() == 10 by {
                if i < ended.len() {
                    assert(ended_lines(bytes)[i] == ended[i]);
                }
            }
        } else {
            assert(ended_lines(bytes) =~= ended);
            assert(bytes =~= before.push(bytes.last()));
            assert(joined(ended) + open.push(bytes.last()) =~= (joined(ended) + open).push(
                bytes.last(),
            ));
            assert(joined(ended_lines(bytes)) + transcript::open_line(bytes) =~= bytes);
        }
    }
}

/// Law: the requests of some lines are those of the first lines and then those of the others. One
/// line is one request, without the white space around it, unless it is nothing else.
pub proof fn law_requests_keep_the_order_of_their_lines(a: Seq<Seq<u8>>, b: Seq<Seq<u8>>, line: Seq<u8>)
    ensures
        requests_in(a + b) == requests_in(a) + requests_in(b),
        requests_in(seq![line]) == (if lines::trimmed(lines::lossy(line)).len() == 0 {
            Seq::<Seq<char>>::empty()
        } else {
            seq![lines::trimmed(lines::lossy(line))]
        }),
    decreases b.len(),
{
    reveal_with_fuel(requests_in, 2);
    assert(seq![line].drop_last() =~= Seq::<Seq<u8>>::empty());
    assert(requests_in(seq![line]) =~= (if lines::trimmed(lines::lossy(line)).len() == 0 {
        Seq::<Seq<char>>::empty()
    } else {
        seq![lines::trimmed(lines::lossy(line))]
    }));
    if b.len() == 0 {
        assert(a + b =~= a);
        assert(requests_in(a) + requests_in(b) =~= requests_in(a));
    } else {
        law_requests_keep_the_order_of_their_lines(a, b.drop_last(), line);
        assert((a + b).drop_last() =~= a + b.drop_last());
        assert(requests_in(a + b) =~= requests_in(a) + requests_in(b));
    }
}

/// Law: bytes are refused exactly where they and those that wait are more than a line may have, and
/// then nothing is taken in. Otherwise all of them are taken in: what was completed is given as its
/// requests, and the open line waits.
pub proof fn law_bytes_are_taken_in_whole(
    before: Seq<u8>,
    chunk: Seq<u8>,
    after: Seq<u8>,
    r: Received,
)
    requires
        receive_agrees(before, chunk, after, r),
    ensures
        r is TooLong <==> before.len() + chunk.len() > 8192,
        r is TooLong ==> after == before,
        r matches Received::Lines(texts) ==> {
            &&& after.len() <= 8192
            &&& joined(ended_lines(before + chunk)) + after == before + chunk
            &&& lines::views(texts@) == requests_in(ended_lines(before + chunk))
            &&& forall|k: int| 0 <= k < after.len() ==> #[trigger] after[k] != 10
        },
{
    law_lines_hold_every_byte(before + chunk);
}

/// Law: a look for an answer is as long as may be: to the end of the time, and at most twenty
/// milliseconds. There is a next look exactly where time is left.
pub proof fn law_looks_end_with_the_time(elapsed: Span, timeout: Span, r: Option<Span>)
    requires
        reply_wait_agrees(elapsed, timeout, r),
    ensures
        r is Some <==> elapsed.nanos < timeout.nanos,
        r matches Some(wait) ==> 0 < wait.nanos <= 20_000_000 && elapsed.nanos + wait.nanos
            <= timeout.nanos && (wait.nanos == 20_000_000 || elapsed.nanos + wait.nanos
            == timeout.nanos),
{
}

/// Law: what to do follows from the look. An answer is sent, and a caller whose answer will never
/// come is told so; only while neither is known does it matter whether the time is over or the
/// client is gone.
pub proof fn law_looks_decide(polled: Polled, last: bool, client_gone: bool)
    ensures
        reply_step_of(polled, last, client_gone) == ReplyStep::Send <==> polled == Polled::Answered,
        reply_step_of(polled, last, client_gone) == ReplyStep::Closed <==> polled
            == Polled::Disconnected,
        reply_step_of(polled, last, client_gone) == ReplyStep::TimedOut <==> polled
            == Polled::Pending && last,
        reply_step_of(polled, last, client_gone) == ReplyStep::Gone <==> polled == Polled::Pending
            && !last && client_gone,
        reply_step_of(polled, last, client_gone) == ReplyStep::Again <==> polled == Polled::Pending
            && !last && !client_gone,
{
}

/// Law: a line is taken up as the request that it reads as, and refused with the identity, the code
/// and the message of what is wrong with it.
pub proof fn law_lines_are_taken_up_as_read(
    parsed: Result<AgentRequestBody, wire::ParseRequestError>,
    r: Result<AgentRequestBody, AgentResponse>,
)
    requires
        taken_up(parsed, r),
    ensures
        r is Ok <==> parsed is Ok,
        r matches Ok(request) ==> parsed == Ok::<AgentRequestBody, wire::ParseRequestError>(
            request,
        ),
        r matches Err(answer) ==> !answer.ok && answer.id == parsed->Err_0.id && (
        answer.error matches Some(error) && error.code == parsed->Err_0.code && error.message@
            == parsed->Err_0.message@),
{
}

} // verus!
