//! Proxmox VE task tracking types.
//!
//! Most Proxmox mutations return a UPID and complete in the background. This
//! module parses the UPID, classifies task outcomes, and reads the answers that
//! report on a running task.
use vstd::prelude::*;
use vstd::string::*;

use crate::client::text_result;
use crate::error::{ErrorView, ProxmoxError};
use crate::json::{data_value, find_text, read_data, text_member};
use crate::text::{
    join, law_splitting_undoes_joining, lemma_split_pieces, same_text, split, split_text, text_option,
};

verus! {

/// A parsed Proxmox UPID.
///
/// UPID format:
/// `UPID:<node>:<pid>:<pstart>:<starttime>:<type>:<id>:<user>:`
///
/// The node is authoritative: guests migrate, and polling must follow the
/// UPID's node, never a caller-supplied one.
#[derive(Debug, PartialEq, Eq)]
pub struct Upid {
    node: String,
    kind: String,
    id: String,
}

/// What a UPID names, as mathematical values.
pub struct UpidView {
    pub node: Seq<char>,
    pub kind: Seq<char>,
    pub id: Seq<char>,
}

impl View for Upid {
    type V = UpidView;

    closed spec fn view(&self) -> UpidView {
        UpidView { node: self.node@, kind: self.kind@, id: self.id@ }
    }
}

/// What a UPID string names, where it is one: the literal `UPID` and at least
/// eight further colon-separated fields, of which node, type and id are not
/// empty.
pub open spec fn upid_of(upid: Seq<char>) -> Option<UpidView> {
    let parts = split(upid, ':');
    if parts.len() >= 9 && parts[0] == "UPID"@ && parts[1].len() > 0 && parts[5].len() > 0
        && parts[6].len() > 0 {
        Some(UpidView { node: parts[1], kind: parts[5], id: parts[6] })
    } else {
        None
    }
}

impl Upid {
    /// Parse a UPID string.
    pub fn parse(upid: &str) -> (r: Result<Self, TaskError>)
        ensures
            match r {
                Ok(parsed) => upid_of(upid@) == Some(parsed@),
                Err(TaskError::MalformedUpid(s)) => upid_of(upid@) is None && s@ == upid@,
            },
    {
        let parts = split_text(upid, ':');
        proof {
            let t = crate::text::texts(parts@);
            assert(t.len() == parts@.len());
            if parts@.len() >= 9 {
                assert(t[0] == parts@[0]@);
                assert(t[1] == parts@[1]@);
                assert(t[5] == parts@[5]@);
                assert(t[6] == parts@[6]@);
            }
        }
        // The literal prefix plus at least eight fields.
        if parts.len() < 9 || !same_text(parts[0].as_str(), "UPID") {
            return Err(TaskError::MalformedUpid(upid.to_owned()));
        }
        // Reject empty fields in critical positions.

        if parts[1].as_str().is_empty() || parts[5].as_str().is_empty()
            || parts[6].as_str().is_empty() {
            return Err(TaskError::MalformedUpid(upid.to_owned()));
        }
        Ok(Upid { node: parts[1].clone(), kind: parts[5].clone(), id: parts[6].clone() })
    }

    /// The node the work is running on.
    ///
    /// The node is authoritative because guests migrate: polling must use this
    /// value, never a caller-supplied node.
    #[must_use]
    pub fn node(&self) -> (r: &str)
        ensures
            r@ == self@.node,
    {
        self.node.as_str()
    }

    /// The task type (e.g., `vzdestroy`, `qmstart`).
    #[must_use]
    pub fn kind(&self) -> (r: &str)
        ensures
            r@ == self@.kind,
    {
        self.kind.as_str()
    }

    /// The guest or resource identifier.
    #[must_use]
    pub fn id(&self) -> (r: &str)
        ensures
            r@ == self@.id,
    {
        self.id.as_str()
    }
}

impl Clone for Upid {
    fn clone(&self) -> (r: Self)
        ensures
            r@ == self@,
    {
        Upid { node: self.node.clone(), kind: self.kind.clone(), id: self.id.clone() }
    }
}

/// The outcome of a completed Proxmox task.
#[derive(Debug, PartialEq, Eq)]
pub enum TaskOutcome {
    /// The task completed successfully.
    Succeeded,
    /// The task failed, with the exit status message.
    Failed(String),
}

/// Classify a Proxmox task exit status.
///
/// Only the exact string `"OK"` is success. `"WARNINGS: 1"` is a failure: a
/// destructive operation that reports warnings must not be recorded as a clean
/// success.
#[must_use]
pub fn classify_exit_status(status: &str) -> (r: TaskOutcome)
    ensures
        match r {
            TaskOutcome::Succeeded => status@ == "OK"@,
            TaskOutcome::Failed(message) => status@ != "OK"@ && message@ == status@,
        },
{
    if same_text(status, "OK") {
        TaskOutcome::Succeeded
    } else {
        TaskOutcome::Failed(status.to_owned())
    }
}

/// Errors from task operations.
#[derive(Debug, PartialEq, Eq)]
pub enum TaskError {
    /// The UPID string did not have the expected format.
    MalformedUpid(String),
}

impl TaskError {
    /// The message a caller reads.
    pub open spec fn message_text(self) -> Seq<char> {
        match self {
            TaskError::MalformedUpid(s) => "malformed UPID: "@ + s@,
        }
    }

    /// The message a caller reads.
    pub fn message(&self) -> (r: String)
        ensures
            r@ == self.message_text(),
    {
        match self {
            TaskError::MalformedUpid(s) => {
                let mut out = "malformed UPID: ".to_owned();
                out.append(s.as_str());
                out
            },
        }
    }
}

// ---------------------------------------------------------------------------
// Following a task
// ---------------------------------------------------------------------------
/// The first pause between two status reads of a task, in seconds.
pub const FIRST_POLL_SECS: u64 = 1;

/// The longest pause between two status reads of a task, in seconds.
pub const MAX_POLL_SECS: u64 = 8;

/// What each pause is multiplied by to get the next.
pub const POLL_MULTIPLIER: u32 = 2;

/// How long a task is followed, in seconds.
pub const POLL_DEADLINE_SECS: u64 = 300;

/// What a status read says of a task.
#[derive(Debug, PartialEq, Eq)]
pub enum Probe {
    /// The task is still running.
    Pending,
    /// The task has stopped with this exit status.
    Ready(String),
}

/// What a task's `status` and `exitstatus` fields say of it, while it is being
/// followed. A status that is neither running nor stopped, and a stop without
/// an exit status, are errors.
pub open spec fn probe_of(status: Option<Seq<char>>, exitstatus: Option<Seq<char>>) -> Result<
    Option<Seq<char>>,
    Seq<char>,
> {
    match status {
        None => Err("status field missing or not a string"@),
        Some(status) => if status == "running"@ {
            Ok(None)
        } else if status == "stopped"@ {
            match exitstatus {
                Some(text) => Ok(Some(text)),
                None => Err("exitstatus field missing or not a string"@),
            }
        } else {
            Err("unexpected task status: "@ + status)
        },
    }
}

/// A probe result as a mathematical value: nothing yet, or an exit status.
pub open spec fn probe_result(r: Result<Probe, String>) -> Result<Option<Seq<char>>, Seq<char>> {
    match r {
        Ok(Probe::Pending) => Ok(None),
        Ok(Probe::Ready(text)) => Ok(Some(text@)),
        Err(error) => Err(error@),
    }
}

/// Decide what a task's `status` and `exitstatus` fields say of it.
pub fn probe(status: Option<String>, exitstatus: Option<String>) -> (r: Result<Probe, String>)
    ensures
        probe_result(r) == probe_of(
            text_option(status),
            text_option(exitstatus),
        ),
{
    match status {
        None => Err("status field missing or not a string".to_owned()),
        Some(status) => {
            if same_text(status.as_str(), "running") {
                Ok(Probe::Pending)
            } else if same_text(status.as_str(), "stopped") {
                match exitstatus {
                    Some(text) => Ok(Probe::Ready(text)),
                    None => Err("exitstatus field missing or not a string".to_owned()),
                }
            } else {
                let mut text = "unexpected task status: ".to_owned();
                text.append(status.as_str());
                Err(text)
            }
        },
    }
}

/// The `status` and `exitstatus` fields of a task-status answer's data, where
/// they are strings.
pub fn status_fields(data: &str) -> (r: (Option<String>, Option<String>))
    ensures
        text_option(r.0) == text_member(data_value(data@), "status"@),
        text_option(r.1) == text_member(data_value(data@), "exitstatus"@),
{
    let value = read_data(data);
    (find_text(&value, "status"), find_text(&value, "exitstatus"))
}

/// What the answer to a status read says of a task. A read that failed ends
/// the following.
pub open spec fn probe_of_answer(answer: Result<Seq<char>, ErrorView>) -> Result<
    Option<Seq<char>>,
    Seq<char>,
> {
    match answer {
        Ok(data) => probe_of(
            text_member(data_value(data), "status"@),
            text_member(data_value(data), "exitstatus"@),
        ),
        Err(error) => Err("task status request failed: "@ + error.message()),
    }
}

/// Decide what the answer to a status read says of a task.
pub fn probe_answer(answer: Result<String, ProxmoxError>) -> (r: Result<Probe, String>)
    ensures
        probe_result(r) == probe_of_answer(text_result(answer)),
{
    match answer {
        Ok(data) => {
            let (status, exitstatus) = status_fields(data.as_str());
            probe(status, exitstatus)
        },
        Err(error) => {
            let mut text = "task status request failed: ".to_owned();
            text.append(error.message().as_str());
            Err(text)
        },
    }
}

// ---------------------------------------------------------------------------
// What holds of every handle
// ---------------------------------------------------------------------------
/// A handle names what was written into it: of fields joined by colons, the
/// second is the node, the sixth the type and the seventh the id. It is one
/// exactly when it has at least nine fields, the first is `UPID`, and none of
/// those three is empty.
pub proof fn law_a_handle_names_what_was_written(fields: Seq<Seq<char>>)
    requires
        fields.len() > 0,
        forall|i: int| 0 <= i < fields.len() ==> !(#[trigger] fields[i]).contains(':'),
    ensures
        upid_of(join(fields, seq![':'])) is Some <==> fields.len() >= 9 && fields[0] == "UPID"@
            && fields[1].len() > 0 && fields[5].len() > 0 && fields[6].len() > 0,
        upid_of(join(fields, seq![':'])) matches Some(upid) ==> upid.node == fields[1] && upid.kind
            == fields[5] && upid.id == fields[6],
{
    law_splitting_undoes_joining(fields, ':');
}

/// No field of a handle holds a colon.
pub proof fn law_a_handles_fields_hold_no_colon(upid: Seq<char>)
    requires
        upid_of(upid) is Some,
    ensures
        !upid_of(upid)->0.node.contains(':'),
        !upid_of(upid)->0.kind.contains(':'),
        !upid_of(upid)->0.id.contains(':'),
{
    lemma_split_pieces(upid, ':');
    let parts = split(upid, ':');
    assert(!parts[1].contains(':') && !parts[5].contains(':') && !parts[6].contains(':'));
}

/// A task is followed while it runs, and is over exactly when it has stopped
/// with an exit status, which is then the one it reported. Anything else is an
/// error.
pub proof fn law_a_task_is_over_when_it_says_so(
    status: Option<Seq<char>>,
    exitstatus: Option<Seq<char>>,
    text: Seq<char>,
)
    ensures
        probe_of(status, exitstatus) == Ok::<Option<Seq<char>>, Seq<char>>(None) <==> status == Some(
            "running"@,
        ),
        probe_of(status, exitstatus) == Ok::<Option<Seq<char>>, Seq<char>>(Some(text)) <==> status
            == Some("stopped"@) && exitstatus == Some(text),
        probe_of(status, exitstatus) is Err <==> status is None || (status != Some("running"@)
            && status != Some("stopped"@)) || (status == Some("stopped"@) && exitstatus is None),
{
    reveal_strlit("running");
    reveal_strlit("stopped");
    assert("running"@[0] == 'r' && "stopped"@[0] == 's');
}

/// A status read is judged by the `status` and `exitstatus` fields of its
/// answer; a read that failed ends the following with the error's own words.
pub proof fn law_a_status_read_is_judged_by_its_fields(
    data: Seq<char>,
    error: ErrorView,
    text: Seq<char>,
)
    ensures
        probe_of_answer(Ok(data)) == Ok::<Option<Seq<char>>, Seq<char>>(Some(text)) <==> text_member(
            data_value(data),
            "status"@,
        ) == Some("stopped"@) && text_member(data_value(data), "exitstatus"@) == Some(text),
        probe_of_answer(Ok(data)) == Ok::<Option<Seq<char>>, Seq<char>>(None) <==> text_member(
            data_value(data),
            "status"@,
        ) == Some("running"@),
        probe_of_answer(Err(error)) == Err::<Option<Seq<char>>, Seq<char>>(
            "task status request failed: "@ + error.message(),
        ),
{
    law_a_task_is_over_when_it_says_so(
        text_member(data_value(data), "status"@),
        text_member(data_value(data), "exitstatus"@),
        text,
    );
}

} // verus!
