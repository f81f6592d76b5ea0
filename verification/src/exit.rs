//! Exit-status classification and failure-message synthesis.
//!
//! On process exit the supervisor captures the numeric exit status and
//! classifies it: zero is a success, the cooperative-stop sentinel (or
//! termination by a signal, which yields no numeric code) is a cancellation,
//! and anything else is a failure whose message is assembled from a bounded
//! tail of the worker's standard-error output.

use vstd::prelude::*;
use vstd::string::*;
use crate::strings::{dec_chars, join_nl, push_dec_u32};

verus! {

/// Exit code a worker exits with when killed by the cooperative-stop signal.
pub const STOP_EXIT_CODE: i32 = 143;

/// How many trailing standard-error lines a synthesized failure message keeps.
pub const STDERR_TAIL_MAX: usize = 8;

/// How a finished run is classified.
#[derive(PartialEq, Eq, Structural, Clone, Copy, Debug)]
pub enum Classification {
    /// The worker exited cleanly.
    Success,
    /// The worker was stopped cooperatively.
    Cancelled,
    /// The worker failed.
    Failed,
}

/// The mathematical value of an optional exit code.
pub open spec fn code_view(code: Option<i32>) -> Option<int> {
    match code {
        None => None,
        Some(c) => Some(c as int),
    }
}

/// Classification of an exit status: 0 is success; the stop sentinel, or the
/// absence of a code (termination by a signal), is a cancellation; any other
/// code is a failure.
pub open spec fn classify_code(code: Option<int>) -> Classification {
    match code {
        None => Classification::Cancelled,
        Some(c) => if c == 0 {
            Classification::Success
        } else if c == STOP_EXIT_CODE as int {
            Classification::Cancelled
        } else {
            Classification::Failed
        },
    }
}

/// Classifies a captured exit status.
pub fn classify_exit(code: Option<i32>) -> (r: Classification)
    ensures
        r == classify_code(code_view(code)),
{
    match code {
        None => Classification::Cancelled,
        Some(c) => if c == 0 {
            Classification::Success
        } else if c == STOP_EXIT_CODE {
            Classification::Cancelled
        } else {
            Classification::Failed
        },
    }
}

/// The last `max` elements of `lines` (all of them when there are fewer).
pub open spec fn spec_tail(lines: Seq<String>, max: int) -> Seq<String> {
    if lines.len() <= max {
        lines
    } else {
        lines.skip(lines.len() - max)
    }
}

/// Copies the last `max` lines of `lines`.
pub fn tail_lines(lines: &Vec<String>, max: usize) -> (r: Vec<String>)
    ensures
        r@ == spec_tail(lines@, max as int),
{
    let start: usize = if lines.len() > max {
        lines.len() - max
    } else {
        0
    };
    let mut out: Vec<String> = Vec::new();
    let mut i: usize = start;
    while i < lines.len()
        invariant
            start <= i <= lines@.len(),
            out@ == lines@.subrange(start as int, i as int),
        decreases lines@.len() - i,
    {
        out.push(lines[i].clone());
        assert(out@ =~= lines@.subrange(start as int, i + 1));
        i += 1;
    }
    proof {
        if lines@.len() <= max {
            assert(lines@.subrange(0, lines@.len() as int) =~= lines@);
        } else {
            assert(lines@.subrange(start as int, lines@.len() as int) =~= lines@.skip(
                lines@.len() - max,
            ));
        }
    }
    out
}

/// The rendering of an exit code, `-1` standing for a missing one.
pub open spec fn code_chars(code: Option<int>) -> Seq<char> {
    match code {
        None => seq!['-'] + dec_chars(1),
        Some(c) => if c >= 0 {
            dec_chars(c as nat)
        } else {
            seq!['-'] + dec_chars((-c) as nat)
        },
    }
}

/// The failure message synthesized for a run whose worker reported nothing:
/// the tail of its standard error when there is one, otherwise a generic
/// sentence naming the exit code.
pub open spec fn spec_failure_message(code: Option<int>, stderr: Seq<String>) -> Seq<char> {
    if stderr.len() > 0 {
        join_nl(spec_tail(stderr, STDERR_TAIL_MAX as int))
    } else {
        "worker exited with code "@ + code_chars(code)
    }
}

fn push_code(out: &mut String, code: Option<i32>)
    ensures
        final(out)@ == old(out)@ + code_chars(code_view(code)),
{
    proof {
        reveal_strlit("-");
        assert("-"@ =~= seq!['-']);
    }
    match code {
        None => {
            out.append("-");
            push_dec_u32(out, 1);
            assert(final(out)@ =~= old(out)@ + code_chars(code_view(code)));
        },
        Some(c) => {
            if c >= 0 {
                push_dec_u32(out, c as u32);
            } else {
                out.append("-");
                let magnitude: i64 = -(c as i64);
                assert(1 <= magnitude <= 0x8000_0000i64);
                push_dec_u32(out, magnitude as u32);
                assert(final(out)@ =~= old(out)@ + code_chars(code_view(code)));
            }
        },
    }
}

/// Builds the failure message for an unreported failure.
pub fn synth_failure_message(code: Option<i32>, stderr: &Vec<String>) -> (r: String)
    ensures
        r@ == spec_failure_message(code_view(code), stderr@),
{
    if stderr.len() > 0 {
        let tail = tail_lines(stderr, STDERR_TAIL_MAX);
        crate::strings::join_lines(&tail)
    } else {
        let mut out = String::from_str("worker exited with code ");
        push_code(&mut out, code);
        out
    }
}

} // verus!
