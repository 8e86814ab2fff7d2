//! What the hook-script runner writes to a script's standard input:
//! line-oriented JSON, built character by character so that every byte is
//! pinned down. The runner itself — spawning the script, feeding it,
//! waiting — is process work and lives outside the library.

use vstd::prelude::*;

use crate::decimal::dec_of;
use crate::decimal::dec_signed_of;
use crate::decimal::i32_to_string;
use crate::decimal::u64_to_string;
use crate::models::MirakurunProgramId;
use crate::models::MirakurunServiceId;

verus! {

/// The lower-case hex digit for one value below sixteen.
pub open spec fn hex_char(d: nat) -> char {
    if d < 10 {
        crate::decimal::digit_char(d)
    } else if d == 10 {
        'a'
    } else if d == 11 {
        'b'
    } else if d == 12 {
        'c'
    } else if d == 13 {
        'd'
    } else if d == 14 {
        'e'
    } else {
        'f'
    }
}

/// The one-character string for one value below sixteen.
fn hex_str(d: u32) -> (r: &'static str)
    requires
        d < 16,
    ensures
        r@ == seq![hex_char(d as nat)],
{
    proof {
        reveal_strlit("0");
        reveal_strlit("1");
        reveal_strlit("2");
        reveal_strlit("3");
        reveal_strlit("4");
        reveal_strlit("5");
        reveal_strlit("6");
        reveal_strlit("7");
        reveal_strlit("8");
        reveal_strlit("9");
        reveal_strlit("a");
        reveal_strlit("b");
        reveal_strlit("c");
        reveal_strlit("d");
        reveal_strlit("e");
        reveal_strlit("f");
    }
    let r = if d == 0 {
        "0"
    } else if d == 1 {
        "1"
    } else if d == 2 {
        "2"
    } else if d == 3 {
        "3"
    } else if d == 4 {
        "4"
    } else if d == 5 {
        "5"
    } else if d == 6 {
        "6"
    } else if d == 7 {
        "7"
    } else if d == 8 {
        "8"
    } else if d == 9 {
        "9"
    } else if d == 10 {
        "a"
    } else if d == 11 {
        "b"
    } else if d == 12 {
        "c"
    } else if d == 13 {
        "d"
    } else if d == 14 {
        "e"
    } else {
        "f"
    };
    proof {
        assert(r@ =~= seq![hex_char(d as nat)]);
    }
    r
}

/// What one character becomes inside a JSON string: quote and backslash
/// are escaped, control characters become `\u00XX`, everything else stands.
pub open spec fn json_escape_char(c: char) -> Seq<char> {
    if c == '"' {
        "\\\""@
    } else if c == '\\' {
        "\\\\"@
    } else if (c as u32) < 32 {
        "\\u00"@ + seq![
            hex_char(((c as u32) / 16) as nat),
            hex_char(((c as u32) % 16) as nat),
        ]
    } else {
        seq![c]
    }
}

/// A whole text escaped for a JSON string body.
pub open spec fn json_escape_of(s: Seq<char>) -> Seq<char>
    decreases s.len(),
{
    if s.len() == 0 {
        Seq::empty()
    } else {
        json_escape_of(s.drop_last()) + json_escape_char(s.last())
    }
}

/// A JSON string: the escaped text between double quotes.
pub open spec fn json_string_of(s: Seq<char>) -> Seq<char> {
    "\""@ + json_escape_of(s) + "\""@
}

/// Appends the escaped body of `s` to `out`.
fn append_json_escaped(out: &mut String, s: &str)
    ensures
        final(out)@ == old(out)@ + json_escape_of(s@),
{
    let n = s.unicode_len();
    let mut i: usize = 0;
    while i < n
        invariant
            n == s@.len(),
            0 <= i <= n,
            out@ == old(out)@ + json_escape_of(s@.subrange(0, i as int)),
        decreases n - i,
    {
        let c = s.get_char(i);
        proof {
            assert(s@.subrange(0, i + 1 as int).drop_last() =~= s@.subrange(0, i as int));
            assert(s@.subrange(0, i + 1 as int).last() == c);
        }
        if c == '"' {
            out.append("\\\"");
        } else if c == '\\' {
            out.append("\\\\");
        } else if (c as u32) < 32 {
            out.append("\\u00");
            out.append(hex_str((c as u32) / 16));
            out.append(hex_str((c as u32) % 16));
            proof {
                assert(out@ =~= old(out)@ + json_escape_of(s@.subrange(0, i + 1 as int)));
            }
        } else {
            out.append(s.substring_char(i, i + 1));
            proof {
                assert(s@.subrange(i as int, i + 1 as int) =~= seq![c]);
            }
        }
        i += 1;
    }
    proof {
        assert(s@.subrange(0, n as int) =~= s@);
    }
}

/// The outcome a recording-stopped hook script is told about.
#[derive(Clone, Debug)]
pub enum RecordingStoppedResult {
    Success(u64),
    Failure(String),
}

impl core::convert::From<Result<u64, String>> for RecordingStoppedResult {
    /// Carries a recording outcome over as it is.
    fn from(result: Result<u64, String>) -> (r: Self) {
        match result {
            Ok(v) => RecordingStoppedResult::Success(v),
            Err(s) => RecordingStoppedResult::Failure(s),
        }
    }
}

impl vstd::std_specs::convert::FromSpecImpl<Result<u64, String>> for RecordingStoppedResult {
    open spec fn obeys_from_spec() -> bool {
        true
    }

    open spec fn from_spec(result: Result<u64, String>) -> Self {
        match result {
            Ok(v) => RecordingStoppedResult::Success(v),
            Err(s) => RecordingStoppedResult::Failure(s),
        }
    }
}

/// The JSON a recording-stopped result serializes to: `{"ok":N}` on
/// success, `{"err":"…"}` on failure.
pub open spec fn stopped_result_json(r: RecordingStoppedResult) -> Seq<char> {
    match r {
        RecordingStoppedResult::Success(n) => "{\"ok\":"@ + dec_of(n as nat) + "}"@,
        RecordingStoppedResult::Failure(s) => "{\"err\":"@ + json_string_of(s@) + "}"@,
    }
}

impl RecordingStoppedResult {
    /// Renders the result as its JSON object.
    pub fn to_json(&self) -> (r: String)
        ensures
            r@ == stopped_result_json(*self),
    {
        match self {
            RecordingStoppedResult::Success(n) => {
                let mut out = String::from_str("{\"ok\":");
                out.append(u64_to_string(*n).as_str());
                out.append("}");
                proof {
                    assert(out@ =~= stopped_result_json(*self));
                }
                out
            },
            RecordingStoppedResult::Failure(s) => {
                let mut out = String::from_str("{\"err\":");
                out.append("\"");
                append_json_escaped(&mut out, s.as_str());
                out.append("\"");
                out.append("}");
                proof {
                    assert(out@ =~= stopped_result_json(*self));
                }
                out
            },
        }
    }
}

/// Why a recording failed, as the hook script is told.
#[derive(Clone, Debug)]
pub enum RecordingFailedReason {
    IoError { message: String, os_error: Option<i32> },
    PipelineError { exit_code: i32 },
    RetryFailed,
}

/// The JSON a failure reason serializes to: a tagged object with
/// camel-case keys.
pub open spec fn failed_reason_json(r: RecordingFailedReason) -> Seq<char> {
    match r {
        RecordingFailedReason::IoError { message, os_error } => "{\"type\":\"ioError\",\"message\":"@
            + json_string_of(message@) + ",\"osError\":"@ + (match os_error {
            Some(n) => dec_signed_of(n as int),
            None => "null"@,
        }) + "}"@,
        RecordingFailedReason::PipelineError { exit_code } => "{\"type\":\"pipelineError\",\"exitCode\":"@
            + dec_signed_of(exit_code as int) + "}"@,
        RecordingFailedReason::RetryFailed => "{\"type\":\"retryFailed\"}"@,
    }
}

impl RecordingFailedReason {
    /// Renders the reason as its JSON object.
    pub fn to_json(&self) -> (r: String)
        ensures
            r@ == failed_reason_json(*self),
    {
        match self {
            RecordingFailedReason::IoError { message, os_error } => {
                let mut out = String::from_str("{\"type\":\"ioError\",\"message\":");
                out.append("\"");
                append_json_escaped(&mut out, message.as_str());
                out.append("\"");
                out.append(",\"osError\":");
                match os_error {
                    Option::Some(n) => {
                        out.append(i32_to_string(*n).as_str());
                    },
                    Option::None => {
                        out.append("null");
                    },
                }
                out.append("}");
                proof {
                    assert(out@ =~= failed_reason_json(*self));
                }
                out
            },
            RecordingFailedReason::PipelineError { exit_code } => {
                let mut out = String::from_str("{\"type\":\"pipelineError\",\"exitCode\":");
                out.append(i32_to_string(*exit_code).as_str());
                out.append("}");
                proof {
                    assert(out@ =~= failed_reason_json(*self));
                }
                out
            },
            RecordingFailedReason::RetryFailed => String::from_str("{\"type\":\"retryFailed\"}"),
        }
    }
}

/// How many hook scripts may run at once: a configured number, floored at
/// one, or the runtime's whole permit budget when none is configured. A
/// share-of-the-processors setting is resolved to a number by the caller.
pub fn concurrency_permits(configured: Option<usize>, max_permits: usize) -> (r: usize)
    requires
        max_permits >= 1,
    ensures
        r == (match configured {
            Some(n) => if n >= 1 {
                n
            } else {
                1
            },
            None => max_permits,
        }),
{
    match configured {
        Option::Some(n) => {
            if n >= 1 {
                n
            } else {
                1
            }
        },
        Option::None => max_permits,
    }
}

/// The line the `epg.programs-updated` script reads: the service id as a
/// JSON number, closed by a line break.
pub fn programs_updated_line(id: &MirakurunServiceId) -> (r: String)
    ensures
        r@ == dec_of(id.spec_value() as nat) + "\n"@,
{
    let mut out = u64_to_string(id.value());
    out.append("\n");
    out
}

/// The one line the `recording.started` and `recording.stopped` scripts
/// read: the program id as a JSON number, closed by a line break.
pub fn recording_program_line(id: &MirakurunProgramId) -> (r: String)
    ensures
        r@ == dec_of(id.spec_value() as nat) + "\n"@,
{
    let mut out = u64_to_string(id.value());
    out.append("\n");
    out
}

/// The two lines the `recording.failed` script reads: the program id,
/// then the reason as JSON, each closed by a line break.
pub fn recording_failed_lines(id: &MirakurunProgramId, reason: &RecordingFailedReason) -> (r: (
    String,
    String,
))
    ensures
        r.0@ == dec_of(id.spec_value() as nat) + "\n"@,
        r.1@ == failed_reason_json(*reason) + "\n"@,
{
    let first = recording_program_line(id);
    let mut second = reason.to_json();
    second.append("\n");
    (first, second)
}

} // verus!
