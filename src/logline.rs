//! The machine-readable lines logged when a replica starts and ends.
use vstd::prelude::*;
use crate::runtime::{label_of, RuntimeKind};
use crate::text::{dec_of, push_decimal, push_signed_decimal, push_text, signed_dec_of};

verus! {

/// `step=<id> runtime=<kind>`, with `unknown` for a step without an id.
pub open spec fn label_text(step_id: Option<String>, kind: RuntimeKind) -> Seq<char> {
    "step="@ + match step_id {
        Some(id) => id@,
        None => "unknown"@,
    } + " runtime="@ + label_of(kind)
}

/// The label that names a step and its runtime in log lines.
pub fn log_label(step_id: &Option<String>, kind: RuntimeKind) -> (r: String)
    ensures
        r@ == label_text(*step_id, kind),
{
    let mut out = String::new();
    push_text(&mut out, "step=");
    match step_id {
        Some(id) => push_text(&mut out, id.as_str()),
        None => push_text(&mut out, "unknown"),
    }
    push_text(&mut out, " runtime=");
    push_text(&mut out, kind.label());
    assert(out@ =~= label_text(*step_id, kind));
    out
}

/// `start pid=<n> ts=<unix ms> <label> cmd="<command>"`.
pub open spec fn start_text(pid: u32, ts: u64, label: Seq<char>, display: Seq<char>) -> Seq<char> {
    "start pid="@ + dec_of(pid as nat) + " ts="@ + dec_of(ts as nat) + " "@ + label + " cmd=\""@
        + display + "\""@
}

/// The line logged when a replica started.
pub fn start_line(pid: u32, ts: u64, label: &str, display: &str) -> (r: String)
    ensures
        r@ == start_text(pid, ts, label@, display@),
{
    let mut out = String::new();
    push_text(&mut out, "start pid=");
    push_decimal(&mut out, pid as u64);
    push_text(&mut out, " ts=");
    push_decimal(&mut out, ts);
    push_text(&mut out, " ");
    push_text(&mut out, label);
    push_text(&mut out, " cmd=\"");
    push_text(&mut out, display);
    push_text(&mut out, "\"");
    assert(out@ =~= start_text(pid, ts, label@, display@));
    out
}

/// The exit of a replica: its code, or `signal` when it has none.
pub open spec fn exit_text(code: Option<i32>) -> Seq<char> {
    match code {
        Some(c) => signed_dec_of(c as int),
        None => "signal"@,
    }
}

/// `end pid=<n> ts=<unix ms> <label> duration_ms=<n> exit=<code|signal>`.
pub open spec fn end_text(
    pid: u32,
    ts: u64,
    label: Seq<char>,
    duration_ms: u64,
    code: Option<i32>,
) -> Seq<char> {
    "end pid="@ + dec_of(pid as nat) + " ts="@ + dec_of(ts as nat) + " "@ + label
        + " duration_ms="@ + dec_of(duration_ms as nat) + " exit="@ + exit_text(code)
}

/// The line logged when a replica ended.
pub fn end_line(pid: u32, ts: u64, label: &str, duration_ms: u64, code: Option<i32>) -> (r: String)
    ensures
        r@ == end_text(pid, ts, label@, duration_ms, code),
{
    let mut out = String::new();
    push_text(&mut out, "end pid=");
    push_decimal(&mut out, pid as u64);
    push_text(&mut out, " ts=");
    push_decimal(&mut out, ts);
    push_text(&mut out, " ");
    push_text(&mut out, label);
    push_text(&mut out, " duration_ms=");
    push_decimal(&mut out, duration_ms);
    push_text(&mut out, " exit=");
    match code {
        Some(c) => push_signed_decimal(&mut out, c),
        None => push_text(&mut out, "signal"),
    }
    assert(out@ =~= end_text(pid, ts, label@, duration_ms, code));
    out
}

} // verus!
