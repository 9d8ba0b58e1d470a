//! The summary of a run.
use vstd::prelude::*;

use crate::arguments::RequiredWindowSize;
use crate::documents;
use crate::documents::{texts_document, Document, DocumentValue, Fields};
use crate::json::{copy_number, JsonNumber, JsonValue};
use crate::runner;
use crate::runner::{ObservedWindow, ProcessExit, RunFailure, TeardownSummary};
use crate::text;
use crate::text::{cat2, decimal, same_text};

verus! {

/// How a run went.
pub struct RunResult {
    /// Whether it went well.
    pub success: bool,
    /// How it went, as a code.
    pub code: &'static str,
    /// How it went, in words.
    pub message: String,
}

/// What a run started.
pub struct LaunchSummary {
    /// The preparation.
    pub prepare_command: Option<Vec<String>>,
    /// The application.
    pub game_command: Vec<String>,
    /// The driver.
    pub driver_command: Option<Vec<String>>,
    /// The working directory of the run.
    pub caller_cwd: String,
    /// The working directory of the application.
    pub game_cwd: String,
}

/// Where a run keeps what it found.
pub struct ArtifactSummary {
    /// The directory.
    pub directory: String,
    /// The summary of the run.
    pub run_summary: String,
    /// The summary of its failure.
    pub failure_summary: Option<String>,
    /// The log of the application.
    pub game_log: String,
    /// The log of the preparation.
    pub prepare_log: Option<String>,
    /// The log of the driver.
    pub driver_log: Option<String>,
    /// The discovery document.
    pub protocol: String,
    /// The transcript.
    pub transcript: String,
    /// The screenshots.
    pub screenshots: String,
}

/// The window of a run.
pub struct WindowSummary {
    /// The logical size that it has to have.
    pub required_logical: Option<RequiredWindowSize>,
    /// The window that the application reported.
    pub actual: Option<ObservedWindow>,
}

/// The summary of a run.
pub struct RunSummary {
    /// The version of the form of this summary.
    pub schema_version: u8,
    /// How the run went.
    pub result: RunResult,
    /// The phase that it came to.
    pub phase: &'static str,
    /// How long it took, in milliseconds.
    pub elapsed_ms: u128,
    /// How long each phase took, in milliseconds.
    pub timings_ms: Vec<(&'static str, u128)>,
    /// What it started.
    pub launch: LaunchSummary,
    /// Where it keeps what it found.
    pub artifacts: ArtifactSummary,
    /// The window.
    pub window: WindowSummary,
    /// How the application stands.
    pub process_exit: ProcessExit,
    /// How the application was torn down.
    pub teardown: TeardownSummary,
    /// What else there is to say.
    pub warnings: Vec<String>,
}

/// What is said of a timeout that came by its deprecated name.
pub const LEGACY_TIMEOUT_WARNING: &'static str = "--ready-timeout/BEVY_FEEDBACK_READY_TIMEOUT_MS is deprecated; use --protocol-timeout/BEVY_FEEDBACK_PROTOCOL_TIMEOUT_MS";

/// What is said where the application left before it acknowledged the request to.
pub const UNACKNOWLEDGED_WARNING: &'static str = "game exited cleanly before shutdown acknowledgment";

/// The summary of a run that has not begun.
pub fn empty_summary(
    launch: LaunchSummary,
    artifacts: ArtifactSummary,
    required_logical: Option<RequiredWindowSize>,
) -> (r: RunSummary)
    ensures
        r.schema_version == 1,
        !r.result.success,
        r.result.code == "runner_internal",
        r.result.message@ == Seq::<char>::empty(),
        r.phase == "setup",
        r.elapsed_ms == 0,
        r.timings_ms@.len() == 0,
        r.launch == launch,
        r.artifacts == artifacts,
        r.window == (WindowSummary { required_logical, actual: None }),
        r.process_exit == ProcessExit::NotStarted,
        r.teardown == runner::no_teardown(),
        r.warnings@.len() == 0,
{
    RunSummary {
        schema_version: 1,
        result: RunResult { success: false, code: "runner_internal", message: String::new() },
        phase: "setup",
        elapsed_ms: 0,
        timings_ms: Vec::new(),
        launch,
        artifacts,
        window: WindowSummary { required_logical, actual: None },
        process_exit: ProcessExit::NotStarted,
        teardown: TeardownSummary::default(),
        warnings: Vec::new(),
    }
}

/// The time of a phase, where one was taken.
pub open spec fn timing_of(timings: Seq<(&'static str, u128)>, phase: Seq<char>) -> Option<u128>
    decreases timings.len(),
{
    if timings.len() == 0 {
        None
    } else if timings.last().0@ == phase {
        Some(timings.last().1)
    } else {
        timing_of(timings.drop_last(), phase)
    }
}

/// No phase has two times.
pub open spec fn timed_once(timings: Seq<(&'static str, u128)>) -> bool {
    forall|i: int, j: int|
        0 <= i < j < timings.len() ==> (#[trigger] timings[i]).0@ != (#[trigger] timings[j]).0@
}

proof fn lemma_timing_at(timings: Seq<(&'static str, u128)>, i: int)
    requires
        0 <= i < timings.len(),
        timed_once(timings),
    ensures
        timing_of(timings, timings[i].0@) == Some(timings[i].1),
    decreases timings.len(),
{
    if i < timings.len() - 1 {
        assert(timings[i].0@ != timings[timings.len() - 1].0@);
        let t = timings.drop_last();
        assert(t[i] == timings[i]);
        assert(timed_once(t)) by {
            assert forall|a: int, b: int| 0 <= a < b < t.len() implies (#[trigger] t[a]).0@ != (
            #[trigger] t[b]).0@ by {
                assert(timings[a].0@ != timings[b].0@);
            }
        }
        lemma_timing_at(t, i);
    }
}

proof fn lemma_timing_absent(timings: Seq<(&'static str, u128)>, phase: Seq<char>)
    requires
        forall|i: int| 0 <= i < timings.len() ==> (#[trigger] timings[i]).0@ != phase,
    ensures
        timing_of(timings, phase) is None,
    decreases timings.len(),
{
    if timings.len() > 0 {
        let t = timings.drop_last();
        assert forall|i: int| 0 <= i < t.len() implies (#[trigger] t[i]).0@ != phase by {
            assert(t[i] == timings[i]);
        }
        assert(timings[timings.len() - 1].0@ != phase);
        lemma_timing_absent(t, phase);
    }
}

proof fn lemma_timing_found(timings: Seq<(&'static str, u128)>, phase: Seq<char>) -> (i: int)
    requires
        timing_of(timings, phase) is Some,
    ensures
        0 <= i < timings.len(),
        timings[i].0@ == phase,
        timing_of(timings, phase) == Some(timings[i].1),
    decreases timings.len(),
{
    if timings.last().0@ == phase {
        timings.len() - 1
    } else {
        let i = lemma_timing_found(timings.drop_last(), phase);
        assert(timings.drop_last()[i] == timings[i]);
        i
    }
}

/// What concluding a run notes: what it failed by, or that it went well.
pub open spec fn concluded(
    a: RunSummary,
    b: RunSummary,
    elapsed_ms: u128,
    failure: Option<RunFailure>,
) -> bool {
    &&& b.elapsed_ms == elapsed_ms
    &&& match failure {
        None => {
            &&& b.result.success
            &&& b.result.code == "ok"
            &&& b.result.message@ == "run completed gracefully"@
            &&& b.phase == "complete"
        },
        Some(failure) => {
            &&& !b.result.success
            &&& b.result.code == failure.code
            &&& b.result.message == failure.message
            &&& b.phase == failure.phase
        },
    }
    &&& b == (RunSummary {
        elapsed_ms,
        result: b.result,
        phase: b.phase,
        ..a
    })
}

impl RunSummary {
    /// Takes note of how long a phase took, in place of what was noted of it before.
    pub fn record_timing(&mut self, phase: &'static str, millis: u128)
        requires
            timed_once(old(self).timings_ms@),
        ensures
            timed_once(final(self).timings_ms@),
            timing_of(final(self).timings_ms@, phase@) == Some(millis),
            forall|other: Seq<char>|
                other != phase@ ==> timing_of(final(self).timings_ms@, other) == #[trigger]
                timing_of(old(self).timings_ms@, other),
            *final(self) == (RunSummary { timings_ms: final(self).timings_ms, ..*old(self) }),
    {
        let ghost before = self.timings_ms@;
        let mut i: usize = 0;
        while i < self.timings_ms.len()
            invariant
                i <= self.timings_ms@.len(),
                self.timings_ms@ == before,
                *self == *old(self),
                before == old(self).timings_ms@,
                timed_once(before),
                forall|k: int| 0 <= k < i ==> (#[trigger] before[k]).0@ != phase@,
            decreases self.timings_ms@.len() - i,
        {
            if same_text(self.timings_ms[i].0, phase) {
                let name = self.timings_ms[i].0;
                self.timings_ms.set(i, (name, millis));
                proof {
                    let now = self.timings_ms@;
                    assert(timed_once(now)) by {
                        assert forall|a: int, b: int| 0 <= a < b < now.len() implies (
                        #[trigger] now[a]).0@ != (#[trigger] now[b]).0@ by {
                            assert(before[a].0@ != before[b].0@);
                        }
                    }
                    lemma_timing_at(now, i as int);
                    assert forall|other: Seq<char>| other != phase@ implies timing_of(now, other)
                        == #[trigger] timing_of(before, other) by {
                        lemma_same_timing(before, now, other, i as int);
                    }
                }
                return;
            }
            i = i + 1;
        }
        self.timings_ms.push((phase, millis));
        proof {
            let now = self.timings_ms@;
            assert(now.drop_last() =~= before);
            assert(timed_once(now)) by {
                assert forall|a: int, b: int| 0 <= a < b < now.len() implies (
                #[trigger] now[a]).0@ != (#[trigger] now[b]).0@ by {
                    if b < before.len() {
                        assert(before[a].0@ != before[b].0@);
                    } else {
                        assert(before[a].0@ != phase@);
                    }
                }
            }
        }
    }

    /// Takes note of how a run went.
    pub fn conclude(&mut self, elapsed_ms: u128, failure: Option<RunFailure>)
        ensures
            concluded(*old(self), *final(self), elapsed_ms, failure),
    {
        self.elapsed_ms = elapsed_ms;
        match failure {
            None => {
                self.result = RunResult {
                    success: true,
                    code: "ok",
                    message: "run completed gracefully".to_owned(),
                };
                self.phase = "complete";
            },
            Some(failure) => {
                self.result = RunResult {
                    success: false,
                    code: failure.code,
                    message: failure.message,
                };
                self.phase = failure.phase;
            },
        }
    }

    /// What is said of a run that failed.
    pub fn failure_line(&self) -> (r: String)
        ensures
            r@ == self.result.message@ + " ["@ + self.result.code@ + "] (phase="@ + self.phase@
                + "); summary="@ + self.artifacts.run_summary@,
    {
        let mut line = cat2(self.result.message.as_str(), " [");
        line.append(self.result.code);
        line.append("] (phase=");
        line.append(self.phase);
        line.append("); summary=");
        line.append(self.artifacts.run_summary.as_str());
        line
    }

    /// What is said of a run that went well.
    pub fn success_line(&self) -> (r: String)
        ensures
            r@ == "bevy-feedback ok: phase=complete elapsed_ms="@ + text::digits(
                self.elapsed_ms as nat,
            ) + " artifacts="@ + self.artifacts.directory@,
    {
        let mut line = cat2(
            "bevy-feedback ok: phase=complete elapsed_ms=",
            decimal(self.elapsed_ms).as_str(),
        );
        line.append(" artifacts=");
        line.append(self.artifacts.directory.as_str());
        line
    }

    /// What is said of how the application was torn down.
    pub fn teardown_line(&self) -> (r: String)
        ensures
            r@ == "teardown: inputs="@ + self.teardown.input_release@ + " shutdown="@
                + self.teardown.shutdown_acknowledgment@ + " socket="@
                + self.teardown.socket_closure@ + " child="@ + self.teardown.child_exit@,
    {
        let mut line = cat2("teardown: inputs=", self.teardown.input_release);
        line.append(" shutdown=");
        line.append(self.teardown.shutdown_acknowledgment);
        line.append(" socket=");
        line.append(self.teardown.socket_closure);
        line.append(" child=");
        line.append(self.teardown.child_exit);
        line
    }
}

proof fn lemma_same_timing(
    before: Seq<(&'static str, u128)>,
    now: Seq<(&'static str, u128)>,
    other: Seq<char>,
    i: int,
)
    requires
        0 <= i < before.len(),
        now.len() == before.len(),
        now[i].0 == before[i].0,
        before[i].0@ != other,
        forall|k: int| 0 <= k < before.len() && k != i ==> #[trigger] now[k] == before[k],
    ensures
        timing_of(now, other) == timing_of(before, other),
    decreases before.len(),
{
    let n = before.len() - 1;
    if i < n {
        assert(now[n] == before[n]);
        assert forall|k: int| 0 <= k < before.drop_last().len() && k != i implies #[trigger]
        now.drop_last()[k] == before.drop_last()[k] by {
            assert(now[k] == before[k]);
        }
        assert(now.drop_last()[i] == now[i]);
        assert(before.drop_last()[i] == before[i]);
        lemma_same_timing(before.drop_last(), now.drop_last(), other, i);
    } else {
        assert(now.drop_last() =~= before.drop_last()) by {
            assert forall|k: int| 0 <= k < n implies #[trigger] now.drop_last()[k]
                == before.drop_last()[k] by {
                assert(now[k] == before[k]);
            }
        }
    }
}

/// A command as a document: null where there is none.
pub open spec fn command_value(command: Option<Vec<String>>) -> DocumentValue {
    match command {
        Some(words) => documents::texts_value(words@),
        None => DocumentValue::Null,
    }
}

fn command_document(command: &Option<Vec<String>>) -> (r: Document)
    ensures
        r@ == command_value(*command),
{
    match command {
        Some(words) => texts_document(words),
        None => Document::Null,
    }
}

/// An optional path as a document: null where there is none.
pub open spec fn path_value(path: Option<String>) -> DocumentValue {
    match path {
        Some(s) => DocumentValue::Text(s@),
        None => DocumentValue::Null,
    }
}

fn path_document(path: &Option<String>) -> (r: Document)
    ensures
        r@ == path_value(*path),
{
    match path {
        Some(s) => Document::Text(s.clone()),
        None => Document::Null,
    }
}

/// How a run went as a document.
pub open spec fn outcome_value(result: RunResult) -> DocumentValue {
    DocumentValue::Object(
        Map::empty().insert("success"@, DocumentValue::Bool(result.success)).insert(
            "code"@,
            DocumentValue::Text(result.code@),
        ).insert("message"@, DocumentValue::Text(result.message@)),
    )
}

fn outcome_document(result: &RunResult) -> (r: Document)
    ensures
        r@ == outcome_value(*result),
{
    Fields::new().with("success", Document::Bool(result.success)).with(
        "code",
        Document::Text(result.code.to_owned()),
    ).with("message", Document::Text(result.message.clone())).build()
}

/// What a run started as a document.
pub open spec fn launch_value(launch: LaunchSummary) -> DocumentValue {
    DocumentValue::Object(
        Map::empty().insert("prepare_command"@, command_value(launch.prepare_command)).insert(
            "game_command"@,
            documents::texts_value(launch.game_command@),
        ).insert("driver_command"@, command_value(launch.driver_command)).insert(
            "caller_cwd"@,
            DocumentValue::Text(launch.caller_cwd@),
        ).insert("game_cwd"@, DocumentValue::Text(launch.game_cwd@)),
    )
}

fn launch_document(launch: &LaunchSummary) -> (r: Document)
    ensures
        r@ == launch_value(*launch),
{
    Fields::new().with("prepare_command", command_document(&launch.prepare_command)).with(
        "game_command",
        texts_document(&launch.game_command),
    ).with("driver_command", command_document(&launch.driver_command)).with(
        "caller_cwd",
        Document::Text(launch.caller_cwd.clone()),
    ).with("game_cwd", Document::Text(launch.game_cwd.clone())).build()
}

/// Where a run keeps what it found as a document.
pub open spec fn artifacts_value(artifacts: ArtifactSummary) -> DocumentValue {
    DocumentValue::Object(
        Map::empty().insert("directory"@, DocumentValue::Text(artifacts.directory@)).insert(
            "run_summary"@,
            DocumentValue::Text(artifacts.run_summary@),
        ).insert("failure_summary"@, path_value(artifacts.failure_summary)).insert(
            "game_log"@,
            DocumentValue::Text(artifacts.game_log@),
        ).insert("prepare_log"@, path_value(artifacts.prepare_log)).insert(
            "driver_log"@,
            path_value(artifacts.driver_log),
        ).insert("protocol"@, DocumentValue::Text(artifacts.protocol@)).insert(
            "transcript"@,
            DocumentValue::Text(artifacts.transcript@),
        ).insert("screenshots"@, DocumentValue::Text(artifacts.screenshots@)),
    )
}

fn artifacts_document(artifacts: &ArtifactSummary) -> (r: Document)
    ensures
        r@ == artifacts_value(*artifacts),
{
    Fields::new().with("directory", Document::Text(artifacts.directory.clone())).with(
        "run_summary",
        Document::Text(artifacts.run_summary.clone()),
    ).with("failure_summary", path_document(&artifacts.failure_summary)).with(
        "game_log",
        Document::Text(artifacts.game_log.clone()),
    ).with("prepare_log", path_document(&artifacts.prepare_log)).with(
        "driver_log",
        path_document(&artifacts.driver_log),
    ).with("protocol", Document::Text(artifacts.protocol.clone())).with(
        "transcript",
        Document::Text(artifacts.transcript.clone()),
    ).with("screenshots", Document::Text(artifacts.screenshots.clone())).build()
}

/// A window that the application reported as a document.
pub open spec fn observed_value(w: ObservedWindow) -> DocumentValue {
    DocumentValue::Object(
        Map::empty().insert(
            "logical_width"@,
            DocumentValue::Plain(JsonValue::Number(w.logical_width@)),
        ).insert("logical_height"@, DocumentValue::Plain(JsonValue::Number(w.logical_height@))).insert(
            "physical_width"@,
            DocumentValue::Whole(w.physical_width as u128),
        ).insert("physical_height"@, DocumentValue::Whole(w.physical_height as u128)).insert(
            "scale_factor"@,
            DocumentValue::Plain(JsonValue::Number(w.scale_factor@)),
        ),
    )
}

fn number_document(n: &JsonNumber) -> (r: Document)
    ensures
        r@ == DocumentValue::Plain(JsonValue::Number(n@)),
{
    Document::Plain(copy_number(n))
}

fn observed_document(w: &ObservedWindow) -> (r: Document)
    ensures
        r@ == observed_value(*w),
{
    Fields::new().with("logical_width", number_document(&w.logical_width)).with(
        "logical_height",
        number_document(&w.logical_height),
    ).with("physical_width", Document::Whole(w.physical_width as u128)).with(
        "physical_height",
        Document::Whole(w.physical_height as u128),
    ).with("scale_factor", number_document(&w.scale_factor)).build()
}

/// The window of a run as a document.
pub open spec fn window_value(window: WindowSummary) -> DocumentValue {
    DocumentValue::Object(
        Map::empty().insert(
            "required_logical"@,
            match window.required_logical {
                Some(size) => DocumentValue::Object(
                    Map::empty().insert("width"@, DocumentValue::Whole(size.width as u128)).insert(
                        "height"@,
                        DocumentValue::Whole(size.height as u128),
                    ),
                ),
                None => DocumentValue::Null,
            },
        ).insert(
            "actual"@,
            match window.actual {
                Some(w) => observed_value(w),
                None => DocumentValue::Null,
            },
        ),
    )
}

fn window_document(window: &WindowSummary) -> (r: Document)
    ensures
        r@ == window_value(*window),
{
    let required = match &window.required_logical {
        Some(size) => Fields::new().with("width", Document::Whole(size.width as u128)).with(
            "height",
            Document::Whole(size.height as u128),
        ).build(),
        None => Document::Null,
    };
    let actual = match &window.actual {
        Some(w) => observed_document(w),
        None => Document::Null,
    };
    Fields::new().with("required_logical", required).with("actual", actual).build()
}

/// How the application was torn down as a document.
pub open spec fn teardown_value(t: TeardownSummary) -> DocumentValue {
    DocumentValue::Object(
        Map::empty().insert("input_release"@, DocumentValue::Text(t.input_release@)).insert(
            "shutdown_acknowledgment"@,
            DocumentValue::Text(t.shutdown_acknowledgment@),
        ).insert("socket_closure"@, DocumentValue::Text(t.socket_closure@)).insert(
            "child_exit"@,
            DocumentValue::Text(t.child_exit@),
        ).insert("forced_termination"@, DocumentValue::Bool(t.forced_termination)),
    )
}

fn teardown_document(t: &TeardownSummary) -> (r: Document)
    ensures
        r@ == teardown_value(*t),
{
    Fields::new().with("input_release", Document::Text(t.input_release.to_owned())).with(
        "shutdown_acknowledgment",
        Document::Text(t.shutdown_acknowledgment.to_owned()),
    ).with("socket_closure", Document::Text(t.socket_closure.to_owned())).with(
        "child_exit",
        Document::Text(t.child_exit.to_owned()),
    ).with("forced_termination", Document::Bool(t.forced_termination)).build()
}

/// The times of the phases as the fields of an object.
pub open spec fn timings_value(timings: Seq<(&'static str, u128)>) -> Map<Seq<char>, DocumentValue>
    decreases timings.len(),
{
    if timings.len() == 0 {
        Map::empty()
    } else {
        timings_value(timings.drop_last()).insert(
            timings.last().0@,
            DocumentValue::Whole(timings.last().1),
        )
    }
}

fn timings_document(timings: &Vec<(&'static str, u128)>) -> (r: Document)
    ensures
        r@ == DocumentValue::Object(timings_value(timings@)),
{
    let mut fields = Fields::new();
    let mut i: usize = 0;
    assert(timings@.take(0) =~= Seq::<(&'static str, u128)>::empty());
    while i < timings.len()
        invariant
            i <= timings@.len(),
            fields@ == timings_value(timings@.take(i as int)),
        decreases timings@.len() - i,
    {
        proof {
            assert(timings@.take(i + 1).drop_last() =~= timings@.take(i as int));
        }
        fields = fields.with(timings[i].0, Document::Whole(timings[i].1));
        i = i + 1;
    }
    assert(timings@.take(timings@.len() as int) =~= timings@);
    fields.build()
}

/// The summary of a run as a document.
pub open spec fn run_value(summary: RunSummary) -> DocumentValue {
    DocumentValue::Object(
        Map::empty().insert(
            "schema_version"@,
            DocumentValue::Whole(summary.schema_version as u128),
        ).insert("result"@, outcome_value(summary.result)).insert(
            "phase"@,
            DocumentValue::Text(summary.phase@),
        ).insert("elapsed_ms"@, DocumentValue::Whole(summary.elapsed_ms)).insert(
            "timings_ms"@,
            DocumentValue::Object(timings_value(summary.timings_ms@)),
        ).insert("launch"@, launch_value(summary.launch)).insert(
            "artifacts"@,
            artifacts_value(summary.artifacts),
        ).insert("window"@, window_value(summary.window)).insert(
            "process_exit"@,
            DocumentValue::Text(summary.process_exit.spec_text()@),
        ).insert("teardown"@, teardown_value(summary.teardown)).insert(
            "warnings"@,
            documents::texts_value(summary.warnings@),
        ),
    )
}

/// Shows the summary of a run.
pub fn run_document(summary: &RunSummary) -> (r: Document)
    ensures
        r@ == run_value(*summary),
{
    Fields::new().with("schema_version", Document::Whole(summary.schema_version as u128)).with(
        "result",
        outcome_document(&summary.result),
    ).with("phase", Document::Text(summary.phase.to_owned())).with(
        "elapsed_ms",
        Document::Whole(summary.elapsed_ms),
    ).with("timings_ms", timings_document(&summary.timings_ms)).with(
        "launch",
        launch_document(&summary.launch),
    ).with("artifacts", artifacts_document(&summary.artifacts)).with(
        "window",
        window_document(&summary.window),
    ).with("process_exit", Document::Text(summary.process_exit.text().to_owned())).with(
        "teardown",
        teardown_document(&summary.teardown),
    ).with("warnings", texts_document(&summary.warnings)).build()
}

/// Law: a summary says that a run went well exactly where nothing failed, and otherwise names what
/// failed as it was recorded; everything else that was noted stays.
pub proof fn law_summaries_say_how_it_went(
    a: RunSummary,
    b: RunSummary,
    elapsed_ms: u128,
    failure: Option<RunFailure>,
)
    requires
        concluded(a, b, elapsed_ms, failure),
    ensures
        b.result.success <==> failure is None,
        failure matches Some(f) ==> b.result.code == f.code && b.result.message == f.message
            && b.phase == f.phase,
        failure is None ==> b.result.code == "ok" && b.phase == "complete",
        b.elapsed_ms == elapsed_ms,
        b.timings_ms == a.timings_ms && b.launch == a.launch && b.artifacts == a.artifacts
            && b.window == a.window && b.process_exit == a.process_exit && b.teardown
            == a.teardown && b.warnings == a.warnings,
{
}

/// Law: the time of a phase is the one that was noted under its name, and there is one exactly where
/// one was noted.
pub proof fn law_timings_are_found_by_phase(timings: Seq<(&'static str, u128)>, i: int, phase: Seq<char>)
    requires
        timed_once(timings),
    ensures
        0 <= i < timings.len() ==> timing_of(timings, timings[i].0@) == Some(timings[i].1),
        timing_of(timings, phase) is Some <==> exists|k: int|
            0 <= k < timings.len() && (#[trigger] timings[k]).0@ == phase,
{
    if 0 <= i < timings.len() {
        lemma_timing_at(timings, i);
    }
    if exists|k: int| 0 <= k < timings.len() && (#[trigger] timings[k]).0@ == phase {
        let k = choose|k: int| 0 <= k < timings.len() && (#[trigger] timings[k]).0@ == phase;
        lemma_timing_at(timings, k);
    } else {
        lemma_timing_absent(timings, phase);
    }
}

} // verus!
