//! The structured result of a tool call, and how a result is read back:
//! whether it reports an error, its error code and its message.
use crate::text::{
    chars_of, contains_str, decimal, floor_prefix, floor_prefix_chars, fmt_i32, fmt_u128,
    has_sub, int_decimal, lowercase, push_all, push_str, string_of, to_lowercase, utf8_len,
    utf8_len_of,
};
use vstd::prelude::*;

verus! {

/// Which of the captured streams were cut.
#[derive(Debug)]
pub struct TruncationInfo {
    pub stdout: Option<bool>,
    pub stderr: Option<bool>,
}

/// A note attached to a successful result.
#[derive(Debug)]
pub struct ToolWarning {
    pub code: String,
    pub message: String,
}

/// A tool result as the model receives it (serialised as JSON; absent
/// fields are left out).
#[derive(Debug)]
pub struct ToolOutput {
    pub ok: bool,
    pub operation: String,
    pub path: Option<String>,
    pub message: Option<String>,
    pub error_code: Option<String>,
    pub exit_code: Option<i32>,
    pub stdout: Option<String>,
    pub stderr: Option<String>,
    pub timed_out: Option<bool>,
    pub truncated: Option<TruncationInfo>,
    pub diagnostic_grade: Option<String>,
    pub failure_fingerprint: Option<String>,
    pub should_modify_code: Option<bool>,
    pub suggested_next: Option<Vec<String>>,
    pub warning: Option<ToolWarning>,
}

/// A request that a tool turns down before or instead of doing its work:
/// the error code and the message of the error result.
#[derive(Debug)]
pub struct Refusal {
    pub code: String,
    pub message: String,
}

impl Refusal {
    /// A refusal with a fixed code and message text.
    pub fn new(code: &str, message: &str) -> (r: Refusal)
        ensures
            r.code@ == code@,
            r.message@ == message@,
    {
        let c = chars_of(code);
        let m = chars_of(message);
        Refusal { code: string_of(c.as_slice()), message: string_of(m.as_slice()) }
    }

    /// A refusal whose message was built as characters.
    pub fn with_chars(code: &str, message: &[char]) -> (r: Refusal)
        ensures
            r.code@ == code@,
            r.message@ == message@,
    {
        let c = chars_of(code);
        Refusal { code: string_of(c.as_slice()), message: string_of(message) }
    }
}

/// `r` is a refusal with this code and message.
pub open spec fn refuses<T>(r: Result<T, Refusal>, code: Seq<char>, message: Seq<char>) -> bool {
    match r {
        Err(f) => f.code@ == code && f.message@ == message,
        Ok(_) => false,
    }
}

/// The characters of an optional string.
pub open spec fn opt_view(o: Option<String>) -> Option<Seq<char>> {
    match o {
        Some(s) => Some(s@),
        None => None,
    }
}

/// Every optional field of `o` is absent but its path, message and error code.
pub open spec fn rest_bare(o: ToolOutput) -> bool {
    &&& o.exit_code is None
    &&& o.stdout is None
    &&& o.stderr is None
    &&& o.timed_out is None
    &&& o.truncated is None
    &&& o.diagnostic_grade is None
    &&& o.failure_fingerprint is None
    &&& o.should_modify_code is None
    &&& o.suggested_next is None
    &&& o.warning is None
}

/// A stream cut to `max` bytes at a character boundary, with a note giving
/// its full length and the bytes shown; the flag says whether it was cut.
pub open spec fn cut_stream(s: Seq<char>, max: nat) -> (bool, Seq<char>) {
    if utf8_len(s) <= max {
        (false, s)
    } else {
        let p = floor_prefix(s, max);
        (
            true,
            p + "...\n[Truncated: "@ + decimal(utf8_len(s)) + " chars, showing first "@ + decimal(
                utf8_len(p),
            ) + "]"@,
        )
    }
}

/// The message of a command result.
pub open spec fn command_message(
    exit_code: i32,
    stdout: Seq<char>,
    stderr: Seq<char>,
    timed_out: bool,
) -> Seq<char> {
    if exit_code == 0 {
        "Command executed successfully (exit="@ + int_decimal(exit_code as int) + "). stdout: "@
            + decimal(utf8_len(stdout)) + " bytes"@
    } else {
        (if timed_out {
            "Command timed out (exit="@
        } else {
            "Command failed (exit="@
        }) + int_decimal(exit_code as int) + "). stdout: "@ + decimal(utf8_len(stdout))
            + " bytes, stderr: "@ + decimal(utf8_len(stderr)) + " bytes"@
    }
}

/// The error code of a command result.
pub open spec fn command_error_code(exit_code: i32, timed_out: bool) -> Option<Seq<char>> {
    if exit_code == 0 {
        None
    } else if timed_out {
        Some("timeout"@)
    } else {
        Some("non_zero_exit"@)
    }
}

/// The diagnostic grade of a command result.
pub open spec fn command_grade(exit_code: i32, timed_out: bool) -> Option<Seq<char>> {
    if exit_code == 0 {
        None
    } else if exit_code == -1 && timed_out {
        Some("timeout"@)
    } else {
        Some("raw_excerpt"@)
    }
}

/// A JSON member as the result readers see it.
#[derive(Debug)]
pub enum JsonField {
    /// The text is no JSON object, or has no such member.
    Absent,
    Bool(bool),
    Text(String),
    /// A member of another JSON type.
    Other,
}

/// The view of a [`JsonField`].
pub enum FieldView {
    Absent,
    Bool(bool),
    Text(Seq<char>),
    Other,
}

impl View for JsonField {
    type V = FieldView;

    open spec fn view(&self) -> FieldView {
        match self {
            JsonField::Absent => FieldView::Absent,
            JsonField::Bool(b) => FieldView::Bool(*b),
            JsonField::Text(s) => FieldView::Text(s@),
            JsonField::Other => FieldView::Other,
        }
    }
}

/// The member `key` of the JSON document `raw`, as `serde_json` parses it.
pub uninterp spec fn json_member(raw: Seq<char>, key: Seq<char>) -> FieldView;

/// Parses `raw` with `serde_json::from_str` into a `serde_json::Value` and
/// reads its member `key` with `Value::get`, telling the JSON types apart.
/// The contract names the result; JSON grammar is not restated.
#[verifier::external_body]
pub(crate) fn json_field(raw: &str, key: &str) -> (r: JsonField)
    ensures
        r@ == json_member(raw@, key@),
{
    match serde_json::from_str::<serde_json::Value>(raw) {
        Ok(v) => match v.get(key) {
            Some(serde_json::Value::Bool(b)) => JsonField::Bool(*b),
            Some(serde_json::Value::String(s)) => JsonField::Text(s.clone()),
            Some(_) => JsonField::Other,
            None => JsonField::Absent,
        },
        Err(_) => JsonField::Absent,
    }
}

/// Words that mark a plain-text result as an error (in its lowercase form).
pub open spec fn error_words(lower: Seq<char>) -> bool {
    has_sub(lower, "failed"@) || has_sub(lower, "error"@) || has_sub(lower, "unknown tool"@)
        || has_sub(lower, "timed out"@) || has_sub(lower, "timeout"@)
}

/// A result reports an error: its JSON `ok` member is `false`, or, when it
/// has no boolean `ok`, its lowercase text holds an error word.
pub open spec fn reports_error(raw: Seq<char>) -> bool {
    match json_member(raw, "ok"@) {
        FieldView::Bool(ok) => !ok,
        _ => error_words(lowercase(raw)),
    }
}

/// The error code of a result whose `ok` member is `false`.
pub open spec fn reported_code(raw: Seq<char>) -> Option<Seq<char>> {
    match json_member(raw, "ok"@) {
        FieldView::Bool(ok) => if ok {
            None
        } else {
            match json_member(raw, "error_code"@) {
                FieldView::Text(c) => Some(c),
                _ => None,
            }
        },
        _ => None,
    }
}

/// The `message` member of a result, when it is a string.
pub open spec fn reported_message(raw: Seq<char>) -> Option<Seq<char>> {
    match json_member(raw, "message"@) {
        FieldView::Text(m) => Some(m),
        _ => None,
    }
}

fn some_string(s: &str) -> (r: Option<String>)
    ensures
        opt_view(r) == Some(s@),
{
    let v = chars_of(s);
    Some(string_of(v.as_slice()))
}

/// `o` is the success result of `op` on `path` with message `msg`.
pub open spec fn success_of(o: ToolOutput, op: Seq<char>, path: Seq<char>, msg: Seq<char>) -> bool {
    &&& o.ok
    &&& o.operation@ == op
    &&& opt_view(o.path) == Some(path)
    &&& opt_view(o.message) == Some(msg)
    &&& o.error_code is None
    &&& rest_bare(o)
}

/// `o` is the success result of `op` with message `msg` and no path.
pub open spec fn success_raw_of(o: ToolOutput, op: Seq<char>, msg: Seq<char>) -> bool {
    &&& o.ok
    &&& o.operation@ == op
    &&& o.path is None
    &&& opt_view(o.message) == Some(msg)
    &&& o.error_code is None
    &&& rest_bare(o)
}

/// `o` is the error result of `op` on `path` with this code and message.
pub open spec fn error_of(o: ToolOutput, op: Seq<char>, path: Seq<char>, code: Seq<char>, msg: Seq<char>) -> bool {
    &&& !o.ok
    &&& o.operation@ == op
    &&& opt_view(o.path) == Some(path)
    &&& opt_view(o.error_code) == Some(code)
    &&& opt_view(o.message) == Some(msg)
    &&& rest_bare(o)
}

impl ToolOutput {
    /// A result with only its outcome and operation set.
    pub fn new(ok: bool, operation: &str) -> (r: ToolOutput)
        ensures
            r.ok == ok,
            r.operation@ == operation@,
            r.path is None && r.message is None && r.error_code is None,
            rest_bare(r),
    {
        let v = chars_of(operation);
        ToolOutput {
            ok,
            operation: string_of(v.as_slice()),
            path: None,
            message: None,
            error_code: None,
            exit_code: None,
            stdout: None,
            stderr: None,
            timed_out: None,
            truncated: None,
            diagnostic_grade: None,
            failure_fingerprint: None,
            should_modify_code: None,
            suggested_next: None,
            warning: None,
        }
    }

    /// A success on a path, with a message.
    pub fn success(operation: &str, path: &str, message: &str) -> (r: ToolOutput)
        ensures
            r.ok,
            r.operation@ == operation@,
            opt_view(r.path) == Some(path@),
            opt_view(r.message) == Some(message@),
            r.error_code is None,
            rest_bare(r),
    {
        let mut o = Self::new(true, operation);
        o.path = some_string(path);
        o.message = some_string(message);
        o
    }

    /// A success with a message and no path.
    pub fn success_raw(operation: &str, message: &str) -> (r: ToolOutput)
        ensures
            r.ok,
            r.operation@ == operation@,
            opt_view(r.message) == Some(message@),
            r.path is None && r.error_code is None,
            rest_bare(r),
    {
        let mut o = Self::new(true, operation);
        o.message = some_string(message);
        o
    }

    /// A success on `id` that carries a warning; the message notes it.
    pub fn success_with_warning(operation: &str, id: &str, warning_code: &str, warning_msg: &str) -> (r:
        ToolOutput)
        ensures
            r.ok,
            r.operation@ == operation@,
            opt_view(r.path) == Some(id@),
            opt_view(r.message) == Some("Created. Note: "@ + warning_msg@ + "."@),
            r.error_code is None,
            r.warning matches Some(w) && w.code@ == warning_code@ && w.message@ == warning_msg@,
            r.exit_code is None && r.stdout is None && r.stderr is None && r.timed_out is None
                && r.truncated is None && r.diagnostic_grade is None && r.failure_fingerprint is None
                && r.should_modify_code is None && r.suggested_next is None,
    {
        let mut o = Self::new(true, operation);
        o.path = some_string(id);
        let mut m = chars_of("Created. Note: ");
        push_str(&mut m, warning_msg);
        push_str(&mut m, ".");
        o.message = Some(string_of(m.as_slice()));
        let c = chars_of(warning_code);
        let w = chars_of(warning_msg);
        o.warning = Some(ToolWarning { code: string_of(c.as_slice()), message: string_of(w.as_slice()) });
        o
    }

    /// A file read: the message gives the content's byte length and the content.
    pub fn read_file(operation: &str, path: &str, content: &str) -> (r: ToolOutput)
        ensures
            r.ok,
            r.operation@ == operation@,
            opt_view(r.path) == Some(path@),
            opt_view(r.message) == Some(
                "Total "@ + decimal(utf8_len(content@)) + " bytes. Content:\n"@ + content@,
            ),
            r.error_code is None,
            rest_bare(r),
    {
        let mut o = Self::new(true, operation);
        o.path = some_string(path);
        let cv = chars_of(content);
        let mut m = chars_of("Total ");
        let n = fmt_u128(utf8_len_of(cv.as_slice()));
        push_all(&mut m, n.as_slice());
        push_str(&mut m, " bytes. Content:\n");
        push_all(&mut m, cv.as_slice());
        o.message = Some(string_of(m.as_slice()));
        o
    }

    /// A failure on a path, with an error code and a message.
    pub fn error(operation: &str, path: &str, code: &str, message: &str) -> (r: ToolOutput)
        ensures
            !r.ok,
            r.operation@ == operation@,
            opt_view(r.path) == Some(path@),
            opt_view(r.error_code) == Some(code@),
            opt_view(r.message) == Some(message@),
            rest_bare(r),
    {
        let mut o = Self::new(false, operation);
        o.path = some_string(path);
        o.error_code = some_string(code);
        o.message = some_string(message);
        o
    }

    /// A failure with the fields of the structured failure model; an empty
    /// list of suggestions is left out.
    pub fn diagnostic_error(
        operation: &str,
        path: &str,
        code: &str,
        message: &str,
        diagnostic_grade: &str,
        failure_fingerprint: &str,
        should_modify_code: bool,
        suggested_next: Vec<String>,
    ) -> (r: ToolOutput)
        ensures
            !r.ok,
            r.operation@ == operation@,
            opt_view(r.path) == Some(path@),
            opt_view(r.error_code) == Some(code@),
            opt_view(r.message) == Some(message@),
            opt_view(r.diagnostic_grade) == Some(diagnostic_grade@),
            opt_view(r.failure_fingerprint) == Some(failure_fingerprint@),
            r.should_modify_code == Some(should_modify_code),
            suggested_next@.len() == 0 ==> r.suggested_next is None,
            suggested_next@.len() > 0 ==> r.suggested_next == Some(suggested_next),
            r.exit_code is None && r.stdout is None && r.stderr is None && r.timed_out is None
                && r.truncated is None,
    {
        let mut o = Self::new(false, operation);
        o.path = some_string(path);
        o.error_code = some_string(code);
        o.message = some_string(message);
        o.diagnostic_grade = some_string(diagnostic_grade);
        o.failure_fingerprint = some_string(failure_fingerprint);
        o.should_modify_code = Some(should_modify_code);
        o.suggested_next = if suggested_next.len() == 0 {
            None
        } else {
            Some(suggested_next)
        };
        o
    }

    /// Cuts a captured stream to `max_chars` bytes at a character boundary.
    pub fn truncate_if_needed(s: &str, max_chars: usize) -> (r: (bool, String))
        ensures
            r.0 == cut_stream(s@, max_chars as nat).0,
            r.1@ == cut_stream(s@, max_chars as nat).1,
    {
        let sv = chars_of(s);
        let total = utf8_len_of(sv.as_slice());
        if total <= max_chars as u128 {
            (false, string_of(sv.as_slice()))
        } else {
            let mut v = floor_prefix_chars(sv.as_slice(), max_chars as u128);
            let shown = utf8_len_of(v.as_slice());
            push_str(&mut v, "...\n[Truncated: ");
            let a = fmt_u128(total);
            push_all(&mut v, a.as_slice());
            push_str(&mut v, " chars, showing first ");
            let b = fmt_u128(shown);
            push_all(&mut v, b.as_slice());
            push_str(&mut v, "]");
            (true, string_of(v.as_slice()))
        }
    }

    /// The structured result of a command run: outcome by exit code, the
    /// streams cut to their limits, the message, error code, timeout flag,
    /// truncation flags and diagnostic grade.
    pub fn command(
        operation: &str,
        exit_code: i32,
        stdout: &str,
        stderr: &str,
        timed_out: bool,
        max_stdout_chars: usize,
        max_stderr_chars: usize,
    ) -> (r: ToolOutput)
        ensures
            r.ok == (exit_code == 0),
            r.operation@ == operation@,
            r.path is None,
            opt_view(r.message) == Some(command_message(exit_code, stdout@, stderr@, timed_out)),
            opt_view(r.error_code) == command_error_code(exit_code, timed_out),
            r.exit_code == Some(exit_code),
            opt_view(r.stdout) == Some(cut_stream(stdout@, max_stdout_chars as nat).1),
            opt_view(r.stderr) == (if cut_stream(stderr@, max_stderr_chars as nat).1.len() == 0
                && exit_code == 0 {
                None
            } else {
                Some(cut_stream(stderr@, max_stderr_chars as nat).1)
            }),
            r.timed_out == (if timed_out {
                Some(true)
            } else {
                None
            }),
            ({
                let so = cut_stream(stdout@, max_stdout_chars as nat).0;
                let se = cut_stream(stderr@, max_stderr_chars as nat).0;
                match r.truncated {
                    Some(t) => (so || se) && t.stdout == (if so {
                        Some(true)
                    } else {
                        None
                    }) && t.stderr == (if se {
                        Some(true)
                    } else {
                        None
                    }),
                    None => !so && !se,
                }
            }),
            opt_view(r.diagnostic_grade) == command_grade(exit_code, timed_out),
            r.failure_fingerprint is None,
            r.should_modify_code is None,
            r.suggested_next is None,
    {
        let ok = exit_code == 0;
        let (so, shown_out) = Self::truncate_if_needed(stdout, max_stdout_chars);
        let (se, shown_err) = Self::truncate_if_needed(stderr, max_stderr_chars);
        let ov = chars_of(stdout);
        let ev = chars_of(stderr);
        let out_len = fmt_u128(utf8_len_of(ov.as_slice()));
        let err_len = fmt_u128(utf8_len_of(ev.as_slice()));
        let code = fmt_i32(exit_code);
        let mut m: Vec<char>;
        if ok {
            m = chars_of("Command executed successfully (exit=");
            push_all(&mut m, code.as_slice());
            push_str(&mut m, "). stdout: ");
            push_all(&mut m, out_len.as_slice());
            push_str(&mut m, " bytes");
        } else {
            if timed_out {
                m = chars_of("Command timed out (exit=");
            } else {
                m = chars_of("Command failed (exit=");
            }
            push_all(&mut m, code.as_slice());
            push_str(&mut m, "). stdout: ");
            push_all(&mut m, out_len.as_slice());
            push_str(&mut m, " bytes, stderr: ");
            push_all(&mut m, err_len.as_slice());
            push_str(&mut m, " bytes");
        }
        let error_code = if ok {
            None
        } else if timed_out {
            some_string("timeout")
        } else {
            some_string("non_zero_exit")
        };
        let truncated = if so || se {
            Some(
                TruncationInfo {
                    stdout: if so {
                        Some(true)
                    } else {
                        None
                    },
                    stderr: if se {
                        Some(true)
                    } else {
                        None
                    },
                },
            )
        } else {
            None
        };
        let diagnostic_grade = if ok {
            None
        } else if exit_code == -1 && timed_out {
            some_string("timeout")
        } else {
            some_string("raw_excerpt")
        };
        let sev = chars_of(shown_err.as_str());
        let err_shown = if sev.len() == 0 && ok {
            proof {
                assert(shown_err@.len() == 0);
            }
            None
        } else {
            proof {
                assert(shown_err@.len() != 0 || !ok);
            }
            Some(shown_err)
        };
        let ov2 = chars_of(operation);
        ToolOutput {
            ok,
            operation: string_of(ov2.as_slice()),
            path: None,
            message: Some(string_of(m.as_slice())),
            error_code,
            exit_code: Some(exit_code),
            stdout: Some(shown_out),
            stderr: err_shown,
            timed_out: if timed_out {
                Some(true)
            } else {
                None
            },
            truncated,
            diagnostic_grade,
            failure_fingerprint: None,
            should_modify_code: None,
            suggested_next: None,
            warning: None,
        }
    }

    /// Whether a tool result reports an error: by its JSON `ok` member, or,
    /// for text without one, by error words in it.
    pub fn is_error(raw: &str) -> (r: bool)
        ensures
            r == reports_error(raw@),
    {
        match json_field(raw, "ok") {
            JsonField::Bool(ok) => !ok,
            _ => {
                let v = chars_of(raw);
                let lower = to_lowercase(v.as_slice());
                let l = lower.as_slice();
                contains_str(l, "failed") || contains_str(l, "error") || contains_str(
                    l,
                    "unknown tool",
                ) || contains_str(l, "timed out") || contains_str(l, "timeout")
            },
        }
    }

    /// The error code of a result whose `ok` member is `false`.
    pub fn error_code(raw: &str) -> (r: Option<String>)
        ensures
            opt_view(r) == reported_code(raw@),
    {
        match json_field(raw, "ok") {
            JsonField::Bool(ok) => {
                if ok {
                    return None;
                }
                match json_field(raw, "error_code") {
                    JsonField::Text(c) => Some(c),
                    _ => None,
                }
            },
            _ => None,
        }
    }

    /// The `message` member of a result, when it is a string.
    pub fn extract_message(raw: &str) -> (r: Option<String>)
        ensures
            opt_view(r) == reported_message(raw@),
    {
        match json_field(raw, "message") {
            JsonField::Text(m) => Some(m),
            _ => None,
        }
    }
}

} // verus!
