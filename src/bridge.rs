//! Dispatch decisions for the realtime event channel: payload shapes,
//! correlation ids and the reports sent back.

use crate::controller::Modes;
use vstd::prelude::*;

verus! {

/// Interval of the keepalive ping on the event channel, in seconds.
pub const KEEPALIVE_INTERVAL_SECS: u64 = 180;

/// One element of an inbound event's payload list, as far as dispatch
/// needs to tell them apart.
#[derive(Clone, Debug, PartialEq, Eq)]
pub enum Arg {
    Text(String),
    Unsigned(u64),
    /// Anything else: an object, a list, a negative number, a boolean, null.
    Other,
}

/// Outcome reported to the caller of a command.
#[derive(Clone, Copy, Debug, PartialEq, Eq, Structural)]
pub enum ResponseStatus {
    Success,
    Failed,
}

/// A status with its message.
#[derive(Clone, Debug, PartialEq, Eq)]
pub struct Report {
    pub status: ResponseStatus,
    pub message: String,
}

/// A command event: its correlation id and the state it patches. The
/// patch is the third payload element.
#[derive(Clone, Debug, PartialEq, Eq)]
pub struct CommandRequest {
    pub id: String,
    pub mode: Modes,
}

/// A query for the most recent `count` readings.
#[derive(Clone, Debug, PartialEq, Eq)]
pub struct QueryRequest {
    pub id: String,
    pub count: u64,
}

/// A context event: a text second element asks for the stored context;
/// anything else is the context to store.
#[derive(Clone, Debug, PartialEq, Eq)]
pub enum ContextRequest {
    Load { id: String },
    Store { id: String },
}

pub open spec fn text_of(a: Arg) -> Option<Seq<char>> {
    match a {
        Arg::Text(s) => Some(s@),
        _ => None,
    }
}

pub open spec fn is_text(a: Arg) -> bool {
    a is Text
}

/// `"auto"` selects the automatic preference; any other mode the manual state.
pub open spec fn mode_named(m: Seq<char>) -> Modes {
    if m == "auto"@ {
        Modes::Auto
    } else {
        Modes::Active
    }
}

fn text_arg(args: &Vec<Arg>, i: usize) -> (r: Option<String>)
    requires
        i < args@.len(),
    ensures
        r matches Some(s) ==> text_of(args@[i as int]) == Some(s@),
        r is None ==> !is_text(args@[i as int]),
{
    match &args[i] {
        Arg::Text(s) => Some(s.clone()),
        _ => None,
    }
}

fn mode_of(m: &String) -> (r: Modes)
    ensures
        r == mode_named(m@),
{
    let auto = String::from_str("auto");
    if *m == auto {
        Modes::Auto
    } else {
        Modes::Active
    }
}

/// A command event `[id, mode, patch, ..]`, or `None` when the payload has
/// another shape (it is dropped with a warning, and no answer).
pub fn command_request(args: &Vec<Arg>) -> (r: Option<CommandRequest>)
    ensures
        r is Some <==> args@.len() >= 3 && is_text(args@[0]) && is_text(args@[1]),
        r matches Some(c) ==> Some(c.id@) == text_of(args@[0]) && Some(c.mode) == (
            match text_of(args@[1]) {
                Some(m) => Some(mode_named(m)),
                None => None,
            }
        ),
{
    if args.len() < 3 {
        return None;
    }
    match (text_arg(args, 0), text_arg(args, 1)) {
        (Some(id), Some(m)) => {
            let mode = mode_of(&m);
            Some(CommandRequest { id, mode })
        },
        _ => None,
    }
}

/// An activation query `[id, mode, ..]`, or `None` for another shape.
pub fn activation_request(args: &Vec<Arg>) -> (r: Option<CommandRequest>)
    ensures
        r is Some <==> args@.len() >= 2 && is_text(args@[0]) && is_text(args@[1]),
        r matches Some(c) ==> Some(c.id@) == text_of(args@[0]) && Some(c.mode) == (
            match text_of(args@[1]) {
                Some(m) => Some(mode_named(m)),
                None => None,
            }
        ),
{
    if args.len() < 2 {
        return None;
    }
    match (text_arg(args, 0), text_arg(args, 1)) {
        (Some(id), Some(m)) => {
            let mode = mode_of(&m);
            Some(CommandRequest { id, mode })
        },
        _ => None,
    }
}

/// A readings query `[id, count, ..]`, or `None` for another shape.
pub fn query_request(args: &Vec<Arg>) -> (r: Option<QueryRequest>)
    ensures
        r is Some <==> args@.len() >= 2 && is_text(args@[0]) && args@[1] is Unsigned,
        r matches Some(q) ==> Some(q.id@) == text_of(args@[0]) && args@[1] == Arg::Unsigned(
            q.count,
        ),
{
    if args.len() < 2 {
        return None;
    }
    match (text_arg(args, 0), &args[1]) {
        (Some(id), Arg::Unsigned(count)) => Some(QueryRequest { id, count: *count }),
        _ => None,
    }
}

/// A context event `[id, flag or context, ..]`, or `None` for another shape.
pub fn context_request(args: &Vec<Arg>) -> (r: Option<ContextRequest>)
    ensures
        r is Some <==> args@.len() >= 2 && is_text(args@[0]),
        r matches Some(ContextRequest::Load { id }) ==> Some(id@) == text_of(args@[0]) && is_text(
            args@[1],
        ),
        r matches Some(ContextRequest::Store { id }) ==> Some(id@) == text_of(args@[0]) && !is_text(
            args@[1],
        ),
{
    if args.len() < 2 {
        return None;
    }
    match text_arg(args, 0) {
        Some(id) => {
            if matches!(args[1], Arg::Text(_)) {
                Some(ContextRequest::Load { id })
            } else {
                Some(ContextRequest::Store { id })
            }
        },
        None => None,
    }
}

/// The correlation id of a capture event `[id, ..]`, or `None` for another shape.
pub fn capture_request(args: &Vec<Arg>) -> (r: Option<String>)
    ensures
        r is Some <==> args@.len() >= 1 && is_text(args@[0]),
        r matches Some(id) ==> Some(id@) == text_of(args@[0]),
{
    if args.len() < 1 {
        return None;
    }
    text_arg(args, 0)
}

/// The report on a command: success, or the error's message.
pub fn command_report(outcome: Result<(), String>) -> (r: Report)
    ensures
        outcome is Ok ==> r.status == ResponseStatus::Success && r.message@
            == "Command performed successfully"@,
        outcome matches Err(m) ==> r.status == ResponseStatus::Failed && r.message@ == m@,
{
    match outcome {
        Ok(()) => Report {
            status: ResponseStatus::Success,
            message: String::from_str("Command performed successfully"),
        },
        Err(m) => Report { status: ResponseStatus::Failed, message: m },
    }
}

/// The report on storing a context: success, or the error's message.
pub fn context_report(outcome: Result<(), String>) -> (r: Report)
    ensures
        outcome is Ok ==> r.status == ResponseStatus::Success && r.message@
            == "Success saving context information"@,
        outcome matches Err(m) ==> r.status == ResponseStatus::Failed && r.message@ == m@,
{
    match outcome {
        Ok(()) => Report {
            status: ResponseStatus::Success,
            message: String::from_str("Success saving context information"),
        },
        Err(m) => Report { status: ResponseStatus::Failed, message: m },
    }
}

/// Each part followed by a space.
pub open spec fn spaced(parts: Seq<Seq<char>>) -> Seq<char>
    decreases parts.len(),
{
    if parts.len() == 0 {
        Seq::empty()
    } else {
        spaced(parts.drop_last()) + parts.last() + " "@
    }
}

/// A payload for the log: its text parts each followed by a space, or a
/// fixed notice when it has no text parts.
pub fn payload_text(parts: Option<&Vec<String>>) -> (r: String)
    ensures
        parts matches Some(p) ==> r@ == spaced(p@.map_values(|s: String| s@)),
        parts is None ==> r@ == "No readable content"@,
{
    match parts {
        None => String::from_str("No readable content"),
        Some(p) => {
            let mut all = String::new();
            let mut i: usize = 0;
            while i < p.len()
                invariant
                    0 <= i <= p@.len(),
                    all@ == spaced(p@.take(i as int).map_values(|s: String| s@)),
                decreases p@.len() - i,
            {
                let ghost before = p@.take(i as int).map_values(|s: String| s@);
                let ghost after = p@.take(i as int + 1).map_values(|s: String| s@);
                assert(after.drop_last() =~= before);
                all.append(p[i].as_str());
                all.append(" ");
                i = i + 1;
            }
            assert(p@.take(i as int) =~= p@);
            all
        },
    }
}

} // verus!
