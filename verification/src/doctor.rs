//! The check of the installation.
use vstd::prelude::*;

use crate::json;
use crate::json::{
    double_bits, member, show_double, span_json, Json, JsonNumber, JsonValue, NumberValue,
};
use crate::lines;
use crate::lines::{lossy_text, trim};
use crate::reals;
use crate::reals::{is_finite_double, is_positive_double};
use crate::span::Span;
use crate::text;
use crate::text::{cat2, cat3, cat4, chars_of, decimal};

verus! {

/// What a check found.
pub struct Finding {
    /// `ok`, `warn` or `fail`.
    pub status: &'static str,
    /// What was found.
    pub message: String,
}

/// What a check found, as a model.
pub struct FindingView {
    /// `ok`, `warn` or `fail`.
    pub status: &'static str,
    /// What was found.
    pub message: Seq<char>,
}

impl View for Finding {
    type V = FindingView;

    open spec fn view(&self) -> FindingView {
        FindingView { status: self.status, message: self.message@ }
    }
}

/// The views of what was found.
pub open spec fn findings(list: Seq<Finding>) -> Seq<FindingView> {
    Seq::new(list.len(), |i: int| list[i]@)
}

impl Finding {
    /// What is printed of a finding.
    pub fn emit(&self) -> (r: String)
        ensures
            r@ == self.status@ + ": "@ + self.message@,
    {
        cat3(self.status, ": ", self.message.as_str())
    }
}

/// A finding on one capability.
pub open spec fn capability(name: Seq<char>, value: Option<Seq<char>>) -> FindingView {
    match value {
        Some(value) => FindingView {
            status: "ok",
            message: "protocol "@ + name + "="@ + value,
        },
        None => FindingView {
            status: "warn",
            message: "protocol "@ + name + " missing or malformed; omitted"@,
        },
    }
}

fn report_capability(name: &str, value: Option<String>) -> (r: Finding)
    ensures
        r@ == capability(
            name@,
            match value {
                Some(s) => Some(s@),
                None => None,
            },
        ),
{
    match value {
        Some(value) => Finding {
            status: "ok",
            message: cat4("protocol ", name, "=", value.as_str()),
        },
        None => Finding {
            status: "warn",
            message: cat3("protocol ", name, " missing or malformed; omitted"),
        },
    }
}

/// A truth value of the document, as text.
pub open spec fn bool_capability(document: JsonValue, name: Seq<char>) -> Option<Seq<char>> {
    match json::value_at(document, name) {
        Some(JsonValue::Bool(b)) => Some(
            if b {
                "true"@
            } else {
                "false"@
            },
        ),
        _ => None,
    }
}

/// A count of the document from one to 65535, as text.
pub open spec fn count_capability(document: JsonValue, name: Seq<char>) -> Option<Seq<char>> {
    match json::value_at(document, name) {
        Some(JsonValue::Number(NumberValue::Unsigned(n))) => if 0 < n <= u16::MAX {
            Some(text::digits(n as nat))
        } else {
            None
        },
        _ => None,
    }
}

/// A finite number above zero of the document, as text.
pub open spec fn seconds_capability(document: JsonValue, name: Seq<char>) -> Option<Seq<char>> {
    match json::value_at(document, name) {
        Some(JsonValue::Number(n)) => if reals::double_finite(json::double_of(n))
            && reals::double_less(0, json::double_of(n)) {
            Some(json::shown_double(n))
        } else {
            None
        },
        _ => None,
    }
}

/// What is found of the capabilities in a discovery document.
pub open spec fn capabilities_found(document: Result<JsonValue, Seq<char>>) -> Seq<FindingView> {
    match document {
        Err(error) => seq![
            FindingView {
                status: "warn",
                message: "protocol capabilities unavailable: "@ + error,
            },
        ],
        Ok(document) => seq![
            capability("deterministic_time"@, bool_capability(document, "deterministic_time"@)),
            capability("max_wait_frames"@, count_capability(document, "max_wait_frames"@)),
            capability(
                "max_time_advance_steps"@,
                count_capability(document, "max_time_advance_steps"@),
            ),
            capability(
                "max_time_advance_seconds"@,
                seconds_capability(document, "max_time_advance_seconds"@),
            ),
        ],
    }
}

fn read_bool(document: &Json, name: &str) -> (r: Option<String>)
    ensures
        bool_capability(document@, name@) == (match r {
            Some(s) => Some(s@),
            None => None,
        }),
{
    match member(document, name) {
        Some(Json::Bool(b)) => if *b {
            Some("true".to_owned())
        } else {
            Some("false".to_owned())
        },
        _ => None,
    }
}

fn read_count(document: &Json, name: &str) -> (r: Option<String>)
    ensures
        count_capability(document@, name@) == (match r {
            Some(s) => Some(s@),
            None => None,
        }),
{
    match member(document, name) {
        Some(Json::Number(JsonNumber::Unsigned(n))) => if *n > 0 && *n <= u16::MAX as u64 {
            Some(decimal(*n as u128))
        } else {
            None
        },
        _ => None,
    }
}

fn read_seconds(document: &Json, name: &str) -> (r: Option<String>)
    ensures
        seconds_capability(document@, name@) == (match r {
            Some(s) => Some(s@),
            None => None,
        }),
{
    match member(document, name) {
        Some(Json::Number(n)) => {
            let bits = double_bits(n);
            if is_finite_double(bits) && is_positive_double(bits) {
                Some(show_double(n))
            } else {
                None
            }
        },
        _ => None,
    }
}

/// Reports the capabilities in a discovery document, or why it could not be read.
pub fn report_protocol_capabilities(document: &Result<Json, String>) -> (r: Vec<Finding>)
    ensures
        findings(r@) == capabilities_found(
            match *document {
                Ok(json) => Ok(json@),
                Err(message) => Err(message@),
            },
        ),
{
    let mut out: Vec<Finding> = Vec::new();
    match document {
        Err(error) => {
            out.push(
                Finding {
                    status: "warn",
                    message: cat2("protocol capabilities unavailable: ", error.as_str()),
                },
            );
            assert(findings(out@) =~= capabilities_found(Err(error@)));
        },
        Ok(json) => {
            out.push(
                report_capability("deterministic_time", read_bool(json, "deterministic_time")),
            );
            out.push(report_capability("max_wait_frames", read_count(json, "max_wait_frames")));
            out.push(
                report_capability(
                    "max_time_advance_steps",
                    read_count(json, "max_time_advance_steps"),
                ),
            );
            out.push(
                report_capability(
                    "max_time_advance_seconds",
                    read_seconds(json, "max_time_advance_seconds"),
                ),
            );
            assert(findings(out@) =~= capabilities_found(Ok(json@)));
        },
    }
    out
}

/// The document with placeholders for the capabilities that older applications do not write.
pub open spec fn with_placeholders(document: JsonValue) -> Option<JsonValue> {
    match document {
        JsonValue::Object(m) => Some(
            JsonValue::Object(
                m.insert("deterministic_time"@, JsonValue::Bool(false)).insert(
                    "max_wait_frames"@,
                    JsonValue::Number(NumberValue::Unsigned(1)),
                ).insert(
                    "max_time_advance_steps"@,
                    JsonValue::Number(NumberValue::Unsigned(1)),
                ).insert(
                    "max_time_advance_seconds"@,
                    JsonValue::Number(json::span_number(Span { nanos: 1_000_000_000 })),
                ),
            ),
        ),
        _ => None,
    }
}

/// Puts placeholders for the capabilities that older applications do not write into a document.
pub fn without_additive_capabilities(document: Json) -> (r: Option<Json>)
    ensures
        match r {
            Some(json) => with_placeholders(document@) == Some(json@),
            None => with_placeholders(document@) is None,
        },
{
    match document {
        Json::Object(mut entries) => {
            let ghost start = entries@;
            entries.push(("deterministic_time".to_owned(), Json::Bool(false)));
            let ghost a = entries@;
            entries.push(("max_wait_frames".to_owned(), Json::Number(JsonNumber::Unsigned(1))));
            let ghost b = entries@;
            entries.push(
                ("max_time_advance_steps".to_owned(), Json::Number(JsonNumber::Unsigned(1))),
            );
            let ghost c = entries@;
            let second = Span::from_secs(1);
            assert(second == (Span { nanos: 1_000_000_000 }));
            entries.push(("max_time_advance_seconds".to_owned(), span_json(second)));
            let ghost d = entries@;
            proof {
                json::lemma_object_push(start, a.last());
                json::lemma_object_push(a, b.last());
                json::lemma_object_push(b, c.last());
                json::lemma_object_push(c, d.last());
            }
            Some(Json::Object(entries))
        },
        _ => None,
    }
}

/// A verdict of one check.
pub struct Verdict {
    /// What was found.
    pub finding: Finding,
    /// Whether the check passed.
    pub passed: bool,
}

/// What is found of a discovery document that is there or not, and can be reached or not.
pub open spec fn protocol_finding(path: Seq<char>, reached: Option<Result<(), String>>) -> (
    FindingView,
    bool,
) {
    match reached {
        None => (
            FindingView {
                status: "warn",
                message: "protocol file "@ + path + " not present (no game running)"@,
            },
            true,
        ),
        Some(Ok(_)) => (
            FindingView {
                status: "ok",
                message: "protocol file "@ + path + " fresh and reachable"@,
            },
            true,
        ),
        Some(Err(error)) => (
            FindingView {
                status: "fail",
                message: "protocol file "@ + path + " stale or invalid: "@ + error@,
            },
            false,
        ),
    }
}

/// Judges the discovery document. Where there is none, no application runs, which is no fault.
pub fn check_protocol(path: &str, reached: Option<Result<(), String>>) -> (r: Verdict)
    ensures
        (r.finding@, r.passed) == protocol_finding(path@, reached),
{
    match reached {
        None => Verdict {
            finding: Finding {
                status: "warn",
                message: cat3("protocol file ", path, " not present (no game running)"),
            },
            passed: true,
        },
        Some(Ok(_)) => Verdict {
            finding: Finding {
                status: "ok",
                message: cat3("protocol file ", path, " fresh and reachable"),
            },
            passed: true,
        },
        Some(Err(error)) => Verdict {
            finding: Finding {
                status: "fail",
                message: cat4("protocol file ", path, " stale or invalid: ", error.as_str()),
            },
            passed: false,
        },
    }
}

/// Judges the directory of captures.
pub fn check_capture_dir(path: &str, writable: Result<(), String>) -> (r: Verdict)
    ensures
        match writable {
            Ok(_) => r.passed && r.finding@ == (FindingView {
                status: "ok",
                message: "capture dir "@ + path@ + " writable"@,
            }),
            Err(error) => !r.passed && r.finding@ == (FindingView {
                status: "fail",
                message: "capture dir "@ + path@ + " not writable: "@ + error@,
            }),
        },
{
    match writable {
        Ok(_) => Verdict {
            finding: Finding { status: "ok", message: cat3("capture dir ", path, " writable") },
            passed: true,
        },
        Err(error) => Verdict {
            finding: Finding {
                status: "fail",
                message: cat4("capture dir ", path, " not writable: ", error.as_str()),
            },
            passed: false,
        },
    }
}

/// What a command that was tried came to.
pub enum Probe {
    /// It could not be started.
    NotStarted(String),
    /// It ended.
    Ran {
        /// Whether it ended well.
        success: bool,
        /// Its status, as the system words it.
        status: String,
        /// What it wrote.
        stdout: Vec<u8>,
        /// What it wrote as errors.
        stderr: Vec<u8>,
    },
}

/// The text in one line: line ends become semicolons.
pub open spec fn one_line(s: Seq<char>) -> Seq<char>
    decreases s.len(),
{
    if s.len() == 0 {
        Seq::empty()
    } else if s.last() == '\r' || s.last() == '\n' {
        one_line(s.drop_last()) + "; "@
    } else {
        one_line(s.drop_last()).push(s.last())
    }
}

fn in_one_line(s: &str) -> (r: String)
    ensures
        r@ == one_line(s@),
{
    let v = chars_of(s);
    let mut r = String::new();
    let mut i: usize = 0;
    while i < v.len()
        invariant
            i <= v@.len(),
            v@ == s@,
            r@ == one_line(s@.take(i as int)),
        decreases v@.len() - i,
    {
        proof {
            let next = s@.take(i + 1);
            assert(next.drop_last() =~= s@.take(i as int));
            assert(next.last() == v@[i as int]);
        }
        if v[i] == '\r' || v[i] == '\n' {
            r.append("; ");
        } else {
            r.push(v[i]);
        }
        i = i + 1;
    }
    assert(s@.take(s@.len() as int) =~= s@);
    r
}

/// What a command wrote, in one line.
pub open spec fn output_of(stdout: Seq<u8>, stderr: Seq<u8>) -> Seq<char> {
    let out = lines::trimmed(lines::lossy(stdout));
    let err = lines::trimmed(lines::lossy(stderr));
    one_line(
        if out.len() == 0 {
            err
        } else if err.len() == 0 {
            out
        } else {
            out + "; "@ + err
        },
    )
}

/// Brings what a command wrote into one line.
pub fn clean_output(stdout: &[u8], stderr: &[u8]) -> (r: String)
    ensures
        r@ == output_of(stdout@, stderr@),
{
    let out = trim(lossy_text(stdout).as_str());
    let err = trim(lossy_text(stderr).as_str());
    if out.as_str().is_empty() {
        in_one_line(err.as_str())
    } else if err.as_str().is_empty() {
        in_one_line(out.as_str())
    } else {
        in_one_line(cat3(out.as_str(), "; ", err.as_str()).as_str())
    }
}

/// What is found of the version of Python.
pub open spec fn version_finding(probe: Probe) -> (FindingView, bool) {
    match probe {
        Probe::NotStarted(error) => (
            FindingView { status: "fail", message: "python3 not found on PATH: "@ + error@ },
            false,
        ),
        Probe::Ran { success, status, stdout, stderr } => if success {
            (
                FindingView {
                    status: "ok",
                    message: "python3 on PATH: "@ + output_of(stdout@, stderr@),
                },
                true,
            )
        } else {
            (
                FindingView {
                    status: "fail",
                    message: "python3 --version exited with status "@ + status@ + ": "@
                        + output_of(stdout@, stderr@),
                },
                false,
            )
        },
    }
}

/// Judges the version of Python.
pub fn check_python_version(probe: &Probe) -> (r: Verdict)
    ensures
        (r.finding@, r.passed) == version_finding(*probe),
{
    match probe {
        Probe::NotStarted(error) => Verdict {
            finding: Finding {
                status: "fail",
                message: cat2("python3 not found on PATH: ", error.as_str()),
            },
            passed: false,
        },
        Probe::Ran { success, status, stdout, stderr } => {
            let output = clean_output(stdout.as_slice(), stderr.as_slice());
            if *success {
                Verdict {
                    finding: Finding {
                        status: "ok",
                        message: cat2("python3 on PATH: ", output.as_str()),
                    },
                    passed: true,
                }
            } else {
                Verdict {
                    finding: Finding {
                        status: "fail",
                        message: cat4(
                            "python3 --version exited with status ",
                            status.as_str(),
                            ": ",
                            output.as_str(),
                        ),
                    },
                    passed: false,
                }
            }
        },
    }
}

/// What is said where the bundled client cannot be imported.
pub const IMPORT_HINT: &'static str = "; bevy-feedback run injects the bundled client automatically; this failure means python3 cannot import it even with PYTHONPATH set";

/// What is found of the import of the bundled client, or why it could not be written.
pub open spec fn import_finding(probe: Result<Probe, String>) -> (FindingView, bool) {
    match probe {
        Err(error) => (
            FindingView {
                status: "fail",
                message: "cannot materialize bundled client: "@ + error@,
            },
            false,
        ),
        Ok(Probe::NotStarted(error)) => (
            FindingView {
                status: "fail",
                message: "python3 import check failed: "@ + error@ + IMPORT_HINT@,
            },
            false,
        ),
        Ok(Probe::Ran { success, status, stdout, stderr }) => if success {
            (
                FindingView {
                    status: "ok",
                    message: "python import bevy_feedback works (bundled client)"@,
                },
                true,
            )
        } else {
            (
                FindingView {
                    status: "fail",
                    message: "python import bevy_feedback failed: "@ + output_of(stdout@, stderr@)
                        + IMPORT_HINT@,
                },
                false,
            )
        },
    }
}

/// Judges the import of the bundled client.
pub fn check_python_import(probe: &Result<Probe, String>) -> (r: Verdict)
    ensures
        (r.finding@, r.passed) == import_finding(*probe),
{
    match probe {
        Err(error) => Verdict {
            finding: Finding {
                status: "fail",
                message: cat2("cannot materialize bundled client: ", error.as_str()),
            },
            passed: false,
        },
        Ok(Probe::NotStarted(error)) => Verdict {
            finding: Finding {
                status: "fail",
                message: cat3("python3 import check failed: ", error.as_str(), IMPORT_HINT),
            },
            passed: false,
        },
        Ok(Probe::Ran { success, status: _, stdout, stderr }) => if *success {
            Verdict {
                finding: Finding {
                    status: "ok",
                    message: "python import bevy_feedback works (bundled client)".to_owned(),
                },
                passed: true,
            }
        } else {
            let output = clean_output(stdout.as_slice(), stderr.as_slice());
            Verdict {
                finding: Finding {
                    status: "fail",
                    message: cat3(
                        "python import bevy_feedback failed: ",
                        output.as_str(),
                        IMPORT_HINT,
                    ),
                },
                passed: false,
            }
        },
    }
}

/// The exit code of the check: zero where every check passed.
pub fn exit_code(verdicts: &[Verdict]) -> (r: u8)
    ensures
        r == (if forall|i: int| 0 <= i < verdicts@.len() ==> (#[trigger] verdicts@[i]).passed {
            0u8
        } else {
            1u8
        }),
{
    let mut i: usize = 0;
    while i < verdicts.len()
        invariant
            i <= verdicts@.len(),
            forall|k: int| 0 <= k < i ==> (#[trigger] verdicts@[k]).passed,
        decreases verdicts@.len() - i,
    {
        if !verdicts[i].passed {
            assert(!verdicts@[i as int].passed);
            return 1;
        }
        i = i + 1;
    }
    0
}

/// Law: every capability is reported, and those of a document that lacks them are warned about.
pub proof fn law_capabilities_are_reported(document: JsonValue)
    ensures
        capabilities_found(Ok(document)).len() == 4,
        forall|i: int|
            0 <= i < 4 ==> (#[trigger] capabilities_found(Ok(document))[i]).status == "ok"
                || capabilities_found(Ok(document))[i].status == "warn",
{
}

/// Law: a check fails exactly where it finds a fault, and says so; that no application runs is a
/// warning and no fault.
pub proof fn law_checks_fail_for_faults(
    path: Seq<char>,
    reached: Option<Result<(), String>>,
    probe: Probe,
    import: Result<Probe, String>,
)
    ensures
        protocol_finding(path, reached).1 <==> !(reached is Some && reached->Some_0 is Err),
        protocol_finding(path, reached).0.status == (if reached is None {
            "warn"
        } else if reached->Some_0 is Ok {
            "ok"
        } else {
            "fail"
        }),
        version_finding(probe).1 <==> (probe matches Probe::Ran { success, .. } && success),
        version_finding(probe).0.status == (if version_finding(probe).1 {
            "ok"
        } else {
            "fail"
        }),
        import_finding(import).1 <==> (import matches Ok(Probe::Ran { success, .. }) && success),
        import_finding(import).0.status == (if import_finding(import).1 {
            "ok"
        } else {
            "fail"
        }),
{
}

/// Law: a capability is reported with its value exactly where the document has it in its form: a
/// truth value, a count from one to 65535, or a finite number of seconds above zero. Everything else
/// is a warning.
pub proof fn law_capabilities_are_reported_as_they_are(document: JsonValue)
    ensures
        ({
            let found = capabilities_found(Ok(document));
            &&& found.len() == 4
            &&& found[0].status == "ok" <==> json::value_at(document, "deterministic_time"@) == Some(
                JsonValue::Bool(true),
            ) || json::value_at(document, "deterministic_time"@) == Some(JsonValue::Bool(false))
            &&& found[1].status == "ok" <==> (json::value_at(document, "max_wait_frames"@) matches
                Some(JsonValue::Number(NumberValue::Unsigned(n))) && 1 <= n <= 65535)
            &&& found[2].status == "ok" <==> (json::value_at(
                document,
                "max_time_advance_steps"@,
            ) matches Some(JsonValue::Number(NumberValue::Unsigned(n))) && 1 <= n <= 65535)
            &&& found[3].status == "ok" <==> (json::value_at(
                document,
                "max_time_advance_seconds"@,
            ) matches Some(JsonValue::Number(n)) && reals::double_finite(json::double_of(n)) && 0
                < reals::double_value(json::double_of(n)))
            &&& json::value_at(document, "deterministic_time"@) == Some(JsonValue::Bool(true))
                ==> found[0].message == "protocol "@ + "deterministic_time"@ + "="@ + "true"@
            &&& json::value_at(document, "deterministic_time"@) == Some(JsonValue::Bool(false))
                ==> found[0].message == "protocol "@ + "deterministic_time"@ + "="@ + "false"@
            &&& json::value_at(document, "max_wait_frames"@) matches Some(
                JsonValue::Number(NumberValue::Unsigned(n)),
            ) ==> (1 <= n <= 65535 ==> found[1].message == "protocol "@ + "max_wait_frames"@ + "="@
                + text::digits(n as nat))
            &&& json::value_at(document, "max_time_advance_steps"@) matches Some(
                JsonValue::Number(NumberValue::Unsigned(n)),
            ) ==> (1 <= n <= 65535 ==> found[2].message == "protocol "@ + "max_time_advance_steps"@
                + "="@ + text::digits(n as nat))
        }),
{
    reveal_strlit("ok");
    reveal_strlit("warn");
    assert("ok"@.len() == 2 && "warn"@.len() == 4);
    if let Some(JsonValue::Number(n)) = json::value_at(document, "max_time_advance_seconds"@) {
        reals::law_doubles_are_ordered_by_value(0, json::double_of(n));
        reals::law_zero_is_nothing();
    }
    if let Some(JsonValue::Bool(b)) = json::value_at(document, "deterministic_time"@) {
        assert(b || !b);
    }
}

/// Law: a text in one line has no line ends, and a text that has none stays; texts are brought into
/// one line part by part.
pub proof fn law_one_line_has_no_ends(s: Seq<char>, t: Seq<char>)
    ensures
        forall|i: int|
            0 <= i < one_line(s).len() ==> #[trigger] one_line(s)[i] != '\n' && one_line(s)[i]
                != '\r',
        (forall|i: int| 0 <= i < s.len() ==> #[trigger] s[i] != '\n' && s[i] != '\r') ==> one_line(s)
            == s,
        one_line(s + t) == one_line(s) + one_line(t),
        one_line(seq!['\n']) == "; "@,
        one_line(seq!['\r']) == "; "@,
    decreases s.len() + t.len(),
{
    reveal_strlit("; ");
    reveal_with_fuel(one_line, 2);
    assert(seq!['\n'].drop_last() =~= Seq::<char>::empty());
    assert(seq!['\r'].drop_last() =~= Seq::<char>::empty());
    assert(one_line(seq!['\n']) =~= "; "@);
    assert(one_line(seq!['\r']) =~= "; "@);
    if s.len() > 0 {
        let head = s.drop_last();
        law_one_line_has_no_ends(head, Seq::empty());
        if forall|i: int| 0 <= i < s.len() ==> #[trigger] s[i] != '\n' && s[i] != '\r' {
            assert forall|i: int| 0 <= i < head.len() implies #[trigger] head[i] != '\n' && head[i]
                != '\r' by {
                assert(head[i] == s[i]);
            }
            assert(s.last() == s[s.len() - 1]);
            assert(one_line(s) =~= s);
        }
    }
    if t.len() == 0 {
        assert(s + t =~= s);
        assert(one_line(s) + one_line(t) =~= one_line(s));
    } else {
        law_one_line_has_no_ends(s, t.drop_last());
        assert((s + t).drop_last() =~= s + t.drop_last());
        assert(one_line(s + t) =~= one_line(s) + one_line(t));
    }
}

} // verus!
