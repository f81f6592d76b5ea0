//! Line demultiplexer and event model.
//!
//! A worker writes newline-terminated records to its standard output. Each
//! complete line is classified: a line that parses as a JSON object is
//! forwarded on the channel `<prefix>:<type>` (the record's `type` field,
//! `unknown` when the field is absent or not a string); every other line
//! degrades to a plain log event on `<prefix>:log`, carrying the original
//! text unchanged.

use vstd::prelude::*;
use vstd::string::*;

verus! {

/// What a worker line's `type` routing is, as a function of its characters:
/// `None` when the line does not parse as a JSON object, `Some(None)` when it
/// parses as an object without a string `type` field, and `Some(Some(t))`
/// when it parses as an object whose `type` field is the string `t`.
pub uninterp spec fn json_object_type(s: Seq<char>) -> Option<Option<Seq<char>>>;

/// The view of a probed `type` field, in the shape of `json_object_type`.
pub open spec fn probe_view(r: Option<Option<String>>) -> Option<Option<Seq<char>>> {
    match r {
        None => None,
        Some(None) => Some(None),
        Some(Some(t)) => Some(Some(t@)),
    }
}

/// Relies on `serde_json::from_str::<serde_json::Value>` to parse one line,
/// and on matching `serde_json::Value` variants and `serde_json::Map::get` to
/// read the parsed object's `type` field. The outcome is a function of the
/// line's characters alone, named by `json_object_type`.
#[verifier::external_body]
fn probe_record(line: &str) -> (r: Option<Option<String>>)
    ensures
        probe_view(r) == json_object_type(line@),
{
    match serde_json::from_str::<serde_json::Value>(line) {
        Ok(serde_json::Value::Object(map)) => match map.get("type") {
            Some(serde_json::Value::String(t)) => Some(Some(t.clone())),
            _ => Some(None),
        },
        _ => None,
    }
}

/// The payload a forwarded event carries.
pub enum Payload {
    /// A structured worker record, as the raw text of its line.
    Record(String),
    /// An unparsed worker line, byte for byte.
    Log(String),
    /// A human-readable message synthesized by the supervisor.
    Message(String),
    /// The identifier of a promoted output version.
    Version(String),
    /// A final success flag.
    Finished(bool),
}

/// A typed notification handed to the external listener.
pub struct Event {
    /// Channel name, of the form `<domain>:<kind>`.
    pub channel: String,
    /// Structured payload.
    pub payload: Payload,
    /// Optional correlation key (a project or repository identifier).
    pub corr: Option<String>,
}

/// The characters of the channel suffix for unparsed lines.
pub open spec fn log_kind() -> Seq<char> {
    seq!['l', 'o', 'g']
}

/// The characters of the default record type.
pub open spec fn unknown_kind() -> Seq<char> {
    seq!['u', 'n', 'k', 'n', 'o', 'w', 'n']
}

/// The characters of the record type a worker uses to report its own failure.
pub open spec fn error_kind() -> Seq<char> {
    seq!['e', 'r', 'r', 'o', 'r']
}

/// The channel a line is routed to: `<prefix>:<type>` for a JSON object
/// (type `unknown` when missing), `<prefix>:log` otherwise.
pub open spec fn routed_channel(prefix: Seq<char>, line: Seq<char>) -> Seq<char> {
    match json_object_type(line) {
        None => prefix + seq![':'] + log_kind(),
        Some(None) => prefix + seq![':'] + unknown_kind(),
        Some(Some(ty)) => prefix + seq![':'] + ty,
    }
}

/// Builds the channel name `<prefix>:<kind>`.
pub fn channel_of(prefix: &str, kind: &str) -> (r: String)
    ensures
        r@ == prefix@ + seq![':'] + kind@,
{
    let mut out = String::from_str(prefix);
    proof {
        reveal_strlit(":");
        assert(":"@ =~= seq![':']);
    }
    out.append(":");
    out.append(kind);
    assert(out@ =~= prefix@ + seq![':'] + kind@);
    out
}

/// Classifies one complete worker line and builds the event to forward: a
/// structured record keeps its raw text and goes to `<prefix>:<type>`; any
/// other line is preserved byte for byte on `<prefix>:log`.
pub fn route_line(prefix: &str, line: &str, corr: Option<String>) -> (ev: Event)
    ensures
        ev.channel@ == routed_channel(prefix@, line@),
        match ev.payload {
            Payload::Record(s) => json_object_type(line@) is Some && s@ == line@,
            Payload::Log(s) => json_object_type(line@) is None && s@ == line@,
            _ => false,
        },
        ev.corr == corr,
{
    match probe_record(line) {
        Some(Some(ty)) => {
            let channel = channel_of(prefix, ty.as_str());
            Event { channel, payload: Payload::Record(String::from_str(line)), corr }
        },
        Some(None) => {
            proof {
                reveal_strlit("unknown");
                assert("unknown"@ =~= unknown_kind());
            }
            let channel = channel_of(prefix, "unknown");
            Event { channel, payload: Payload::Record(String::from_str(line)), corr }
        },
        None => {
            proof {
                reveal_strlit("log");
                assert("log"@ =~= log_kind());
            }
            let channel = channel_of(prefix, "log");
            Event { channel, payload: Payload::Log(String::from_str(line)), corr }
        },
    }
}

/// Whether a line is a structured record whose `type` field is `error`: such
/// a record is the worker reporting its own failure.
pub fn line_reports_error(line: &str) -> (r: bool)
    ensures
        r == (json_object_type(line@) == Some(Some(error_kind()))),
{
    match probe_record(line) {
        Some(Some(ty)) => {
            proof {
                reveal_strlit("error");
                assert("error"@ =~= error_kind());
            }
            crate::strings::str_eq(ty.as_str(), "error")
        },
        Some(None) => false,
        None => false,
    }
}

} // verus!
