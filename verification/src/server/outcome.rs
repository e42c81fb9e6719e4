//! What became of an apply: what is written down, and what the caller is told.
//!
//! A failure is recorded as fully as a success, and an outcome that nobody
//! observed is recorded as neither.
use vstd::prelude::*;
use vstd::string::*;

use crate::client::{Request, RequestView};
use crate::error::{ErrorView, ProxmoxError};
use crate::guests::{task_status, task_status_path, ExecOutput, ExecView};
use crate::json::{data_value, text_member};
use crate::server::admission::{
    caller_view, principal, principal_text, request_id, request_text, Caller, CallerView,
};
use crate::server::apply::Execution;
use crate::server::plan::{
    device_text, ChangeSetRecord, ChangeSetState, ChangeSetView, StateNameView,
};
use crate::task::{classify_exit_status, status_fields, upid_of, TaskOutcome, Upid};
use crate::text::{
    contains_text, copy_option, decimal, decimal_text, has_text, join, lemma_has_end,
    lemma_has_inner, lemma_has_middle, lemma_split_at_first, lemma_together, same_text, split,
    split_once, split_text_once, text_option, texts,
};

verus! {

/// A line of the evidence trail that closes an apply.
#[derive(Debug)]
pub struct Receipt {
    /// The request that applied the change set.
    pub request_id: String,
    /// The change set.
    pub change_set_id: String,
    /// The device it acted on.
    pub device: String,
    /// Who applied it.
    pub principal: String,
    /// Whether it succeeded.
    pub succeeded: bool,
    /// What went wrong; empty on success.
    pub detail: String,
}

/// A receipt, as a mathematical value.
pub struct ReceiptView {
    pub request_id: Seq<char>,
    pub change_set_id: Seq<char>,
    pub device: Seq<char>,
    pub principal: Seq<char>,
    pub succeeded: bool,
    pub detail: Seq<char>,
}

impl View for Receipt {
    type V = ReceiptView;

    open spec fn view(&self) -> ReceiptView {
        ReceiptView {
            request_id: self.request_id@,
            change_set_id: self.change_set_id@,
            device: self.device@,
            principal: self.principal@,
            succeeded: self.succeeded,
            detail: self.detail@,
        }
    }
}

/// What a stored change set is to become.
#[derive(Debug)]
pub struct RecordUpdate {
    /// Its state.
    pub state: ChangeSetState,
    /// The handle of the task that applies it.
    pub task_id: Option<String>,
}

/// What a stored change set is to become, as a mathematical value.
pub struct UpdateView {
    pub state: StateNameView,
    pub task_id: Option<Seq<char>>,
}

impl View for RecordUpdate {
    type V = UpdateView;

    open spec fn view(&self) -> UpdateView {
        UpdateView { state: self.state@, task_id: text_option(self.task_id) }
    }
}

/// What a command in a guest came to.
#[derive(Debug)]
pub struct ExecReport {
    /// The process id the agent gave it.
    pub pid: u64,
    /// What it left behind.
    pub output: ExecOutput,
}

/// What a command came to, as a mathematical value.
pub struct ReportView {
    pub pid: u64,
    pub output: ExecView,
}

impl View for ExecReport {
    type V = ReportView;

    open spec fn view(&self) -> ReportView {
        ReportView { pid: self.pid, output: self.output@ }
    }
}

/// What a caller is told of an apply that went through.
#[derive(Debug)]
pub enum ApplyReply {
    /// It completed at once, without a task.
    Synchronous {
        /// The command's result, where the apply ran one. A command that exits
        /// non-zero is a completed apply all the same.
        execution: Option<ExecReport>,
    },
    /// Its task completed.
    Completed {
        /// The task's handle.
        upid: String,
        /// The task's exit status.
        exitstatus: String,
    },
}

/// What a caller is told of an apply, as a mathematical value.
pub enum ReplyView {
    Synchronous { execution: Option<ReportView> },
    Completed { upid: Seq<char>, exitstatus: Seq<char> },
}

impl View for ApplyReply {
    type V = ReplyView;

    open spec fn view(&self) -> ReplyView {
        match self {
            ApplyReply::Synchronous { execution } => ReplyView::Synchronous {
                execution: match execution {
                    Some(report) => Some(report@),
                    None => None,
                },
            },
            ApplyReply::Completed { upid, exitstatus } => ReplyView::Completed {
                upid: upid@,
                exitstatus: exitstatus@,
            },
        }
    }
}

/// How an apply ends: what is written down, and what the caller is told.
#[derive(Debug)]
pub struct Settlement {
    /// The receipt to write, where the outcome is known.
    pub receipt: Option<Receipt>,
    /// What the record becomes, where it changes.
    pub update: Option<RecordUpdate>,
    /// What the caller is told.
    pub reply: Result<ApplyReply, String>,
}

/// How an apply ends, as a mathematical value.
pub struct SettlementView {
    pub receipt: Option<ReceiptView>,
    pub update: Option<UpdateView>,
    pub reply: Result<ReplyView, Seq<char>>,
}

impl View for Settlement {
    type V = SettlementView;

    open spec fn view(&self) -> SettlementView {
        SettlementView {
            receipt: match self.receipt {
                Some(receipt) => Some(receipt@),
                None => None,
            },
            update: match self.update {
                Some(update) => Some(update@),
                None => None,
            },
            reply: match self.reply {
                Ok(reply) => Ok(reply@),
                Err(error) => Err(error@),
            },
        }
    }
}

/// What comes after the request was answered.
#[derive(Debug)]
pub enum AfterRequest {
    /// The apply is over.
    Settled(Settlement),
    /// A task was started and is to be followed. The update is stored first, so
    /// that a crash leaves a handle to ask after.
    Follow {
        /// The node the handle names.
        node: String,
        /// The handle.
        handle: String,
        /// What the record becomes meanwhile.
        update: RecordUpdate,
    },
}

/// What comes after the request was answered, as a mathematical value.
pub enum AfterView {
    Settled(SettlementView),
    Follow { node: Seq<char>, handle: Seq<char>, update: UpdateView },
}

impl View for AfterRequest {
    type V = AfterView;

    open spec fn view(&self) -> AfterView {
        match self {
            AfterRequest::Settled(settlement) => AfterView::Settled(settlement@),
            AfterRequest::Follow { node, handle, update } => AfterView::Follow {
                node: node@,
                handle: handle@,
                update: update@,
            },
        }
    }
}

/// The receipt of an apply: it names the caller that applied the change set,
/// not whoever planned or approved it.
pub open spec fn receipt_of(
    record: ChangeSetView,
    caller: Option<CallerView>,
    succeeded: bool,
    detail: Seq<char>,
) -> ReceiptView {
    ReceiptView {
        request_id: request_text(caller),
        change_set_id: record.id,
        device: record.device,
        principal: principal_text(caller),
        succeeded,
        detail,
    }
}

fn write_receipt(
    record: &ChangeSetRecord,
    caller: Option<&Caller>,
    succeeded: bool,
    detail: &str,
) -> (r: Receipt)
    ensures
        r@ == receipt_of(record@, caller_view(caller), succeeded, detail@),
{
    Receipt {
        request_id: request_id(caller),
        change_set_id: record.id.clone(),
        device: record.device.clone(),
        principal: principal(caller),
        succeeded,
        detail: detail.to_owned(),
    }
}

/// What the request was answered with: the task handle, empty where the work
/// was done at once, and a command's result where one was run.
pub open spec fn answer_view(answer: Result<(String, Option<ExecReport>), ProxmoxError>) -> Result<
    (Seq<char>, Option<ReportView>),
    ErrorView,
> {
    match answer {
        Ok((handle, report)) => Ok(
            (
                handle@,
                match report {
                    Some(report) => Some(report@),
                    None => None,
                },
            ),
        ),
        Err(error) => Err(error@),
    }
}

/// What an error on the request comes to. The cluster answering "no" settles
/// the apply as failed. A request that vanished may have been accepted, so
/// nothing is written down and the record stays as it is.
pub open spec fn after_error(
    record: ChangeSetView,
    caller: Option<CallerView>,
    error: ErrorView,
) -> SettlementView {
    if error.definitive() {
        SettlementView {
            receipt: Some(receipt_of(record, caller, false, error.message())),
            update: Some(UpdateView { state: StateNameView::Failed, task_id: record.task_id }),
            reply: Err(error.message()),
        }
    } else {
        SettlementView { receipt: None, update: None, reply: Err(error.message()) }
    }
}

/// What comes after the request was answered.
pub open spec fn after_answer(
    record: ChangeSetView,
    caller: Option<CallerView>,
    answer: Result<(Seq<char>, Option<ReportView>), ErrorView>,
) -> AfterView {
    match answer {
        Err(error) => AfterView::Settled(after_error(record, caller, error)),
        Ok((handle, report)) => if handle.len() == 0 {
            AfterView::Settled(
                SettlementView {
                    receipt: Some(receipt_of(record, caller, true, Seq::empty())),
                    update: Some(UpdateView { state: StateNameView::Applied, task_id: None }),
                    reply: Ok(ReplyView::Synchronous { execution: report }),
                },
            )
        } else {
            match upid_of(handle) {
                None => AfterView::Settled(
                    SettlementView {
                        receipt: None,
                        update: None,
                        reply: Err("malformed UPID: "@ + handle),
                    },
                ),
                Some(upid) => AfterView::Follow {
                    node: upid.node,
                    handle,
                    update: UpdateView {
                        state: StateNameView::Applying,
                        task_id: Some(handle),
                    },
                },
            }
        },
    }
}

/// Decide what comes after the request was answered.
///
/// A storage that deleted synchronously returns no handle. That is a completed
/// operation, not a failure.
pub fn after_request(
    execution: &Execution,
    caller: Option<&Caller>,
    answer: Result<(String, Option<ExecReport>), ProxmoxError>,
) -> (r: AfterRequest)
    ensures
        r@ == after_answer(execution@.record, caller_view(caller), answer_view(answer)),
{
    let record = execution.record();
    match answer {
        Err(error) => {
            let text = error.message();
            if error.is_definitive() {
                let receipt = write_receipt(record, caller, false, text.as_str());
                AfterRequest::Settled(
                    Settlement {
                        receipt: Some(receipt),
                        update: Some(
                            RecordUpdate {
                                state: ChangeSetState::Failed,
                                task_id: copy_option(&record.task_id),
                            },
                        ),
                        reply: Err(text),
                    },
                )
            } else {
                AfterRequest::Settled(Settlement { receipt: None, update: None, reply: Err(text) })
            }
        },
        Ok((handle, report)) => {
            if handle.as_str().is_empty() {
                let receipt = write_receipt(record, caller, true, "");
                proof {
                    reveal_strlit("");
                    assert(""@ =~= Seq::<char>::empty());
                }
                return AfterRequest::Settled(
                    Settlement {
                        receipt: Some(receipt),
                        update: Some(
                            RecordUpdate { state: ChangeSetState::Applied, task_id: None },
                        ),
                        reply: Ok(ApplyReply::Synchronous { execution: report }),
                    },
                );
            }
            match Upid::parse(handle.as_str()) {
                Err(error) => AfterRequest::Settled(
                    Settlement { receipt: None, update: None, reply: Err(error.message()) },
                ),
                Ok(upid) => AfterRequest::Follow {
                    node: upid.node().to_owned(),
                    update: RecordUpdate {
                        // `Applying`, not `Approved`: recovery looks for a
                        // handle on `Applying`, and a set left approved could
                        // be applied twice.
                        state: ChangeSetState::Applying,
                        task_id: Some(handle.clone()),
                    },
                    handle,
                },
            }
        },
    }
}

/// The detail of a receipt: nothing on success, the exit status otherwise.
pub open spec fn exit_detail(exitstatus: Seq<char>) -> Seq<char> {
    if exitstatus == "OK"@ {
        Seq::empty()
    } else {
        exitstatus
    }
}

/// The state a task's exit status leaves a change set in.
pub open spec fn exit_state(exitstatus: Seq<char>) -> StateNameView {
    if exitstatus == "OK"@ {
        StateNameView::Applied
    } else {
        StateNameView::Failed
    }
}

/// What the end of a followed task comes to.
pub open spec fn after_exit(
    record: ChangeSetView,
    caller: Option<CallerView>,
    handle: Seq<char>,
    exitstatus: Seq<char>,
) -> SettlementView {
    SettlementView {
        receipt: Some(
            receipt_of(record, caller, exitstatus == "OK"@, exit_detail(exitstatus)),
        ),
        update: Some(UpdateView { state: exit_state(exitstatus), task_id: None }),
        reply: if exitstatus == "OK"@ {
            Ok(ReplyView::Completed { upid: handle, exitstatus })
        } else {
            Err("task failed: "@ + exitstatus)
        },
    }
}

/// Settle an apply whose task has ended.
///
/// A failed set is finalised too: a retry would carry a receipt without its
/// proposal, and a fresh plan is the correct path after a failed destroy.
pub fn settle_exit(
    execution: &Execution,
    caller: Option<&Caller>,
    handle: String,
    exitstatus: String,
) -> (r: Settlement)
    ensures
        r@ == after_exit(execution@.record, caller_view(caller), handle@, exitstatus@),
{
    proof {
        reveal_strlit("");
        assert(""@ =~= Seq::<char>::empty());
    }
    match classify_exit_status(exitstatus.as_str()) {
        TaskOutcome::Succeeded => Settlement {
            receipt: Some(write_receipt(execution.record(), caller, true, "")),
            update: Some(RecordUpdate { state: ChangeSetState::Applied, task_id: None }),
            reply: Ok(ApplyReply::Completed { upid: handle, exitstatus }),
        },
        TaskOutcome::Failed(message) => {
            let mut text = "task failed: ".to_owned();
            text.append(message.as_str());
            Settlement {
                receipt: Some(
                    write_receipt(execution.record(), caller, false, exitstatus.as_str()),
                ),
                update: Some(RecordUpdate { state: ChangeSetState::Failed, task_id: None }),
                reply: Err(text),
            }
        },
    }
}

/// Why following a task ended without an exit status.
#[derive(Debug)]
pub enum PollFailure {
    /// The server is shutting down.
    Cancelled {
        /// Status reads made.
        attempts: u32,
    },
    /// The task took too long.
    DeadlineExceeded {
        /// Status reads made.
        attempts: u32,
        /// The deadline, as text.
        deadline: String,
    },
    /// A status read failed.
    Probe {
        /// Status reads made.
        attempts: u32,
        /// Why it failed.
        source: String,
    },
    /// The pauses and the deadline do not fit together.
    Config(String),
}

/// What a caller is told when following a task ended without an exit status.
pub open spec fn poll_failure_text(failure: PollFailure) -> Seq<char> {
    match failure {
        PollFailure::Cancelled { attempts } => "polling cancelled after "@ + decimal(
            attempts as nat,
        ) + " attempt(s)"@,
        PollFailure::DeadlineExceeded { attempts, deadline } => "polling exceeded its "@ + deadline@
            + " deadline after "@ + decimal(attempts as nat) + " attempt(s)"@,
        PollFailure::Probe { attempts, source } => "probe failed on attempt "@ + decimal(
            attempts as nat,
        ) + ": "@ + source@,
        PollFailure::Config(error) => "invalid poll configuration: "@ + error@,
    }
}

/// What a caller is told when following a task ended without an exit status.
/// Nothing is written down: the record stays `Applying` with its handle.
pub fn poll_refusal(failure: &PollFailure) -> (r: String)
    ensures
        r@ == poll_failure_text(*failure),
{
    match failure {
        PollFailure::Cancelled { attempts } => {
            let mut out = "polling cancelled after ".to_owned();
            out.append(decimal_text(*attempts as u64).as_str());
            out.append(" attempt(s)");
            out
        },
        PollFailure::DeadlineExceeded { attempts, deadline } => {
            let mut out = "polling exceeded its ".to_owned();
            out.append(deadline.as_str());
            out.append(" deadline after ");
            out.append(decimal_text(*attempts as u64).as_str());
            out.append(" attempt(s)");
            out
        },
        PollFailure::Probe { attempts, source } => {
            let mut out = "probe failed on attempt ".to_owned();
            out.append(decimal_text(*attempts as u64).as_str());
            out.append(": ");
            out.append(source.as_str());
            out
        },
        PollFailure::Config(error) => {
            let mut out = "invalid poll configuration: ".to_owned();
            out.append(error.as_str());
            out
        },
    }
}

// ---------------------------------------------------------------------------
// Recovery at startup
// ---------------------------------------------------------------------------
/// Principal recorded on a receipt written by startup recovery.
///
/// The executor of an apply is the token that called it, which is not the
/// approver: two-person control exists so those differ. When the process that
/// knew the executor dies before writing the receipt, that identity is gone. An
/// explicit marker says so; reusing the approver would put a name on a
/// destructive execution that person did not perform.
pub const RECOVERED_EXECUTOR: &'static str = "unknown:recovered-at-startup";

/// What startup recovery does about one stored change set.
#[derive(Debug)]
pub enum Recovery {
    /// Nothing: it is not being applied. A handle that is still there means the
    /// process died between finishing and clearing it.
    NotApplying {
        /// Whether a handle is still there.
        stray_handle: bool,
    },
    /// It is being applied but has no handle to ask after.
    NoHandle,
    /// Its handle does not parse.
    UnreadableHandle,
    /// Its device is not `cluster/vmid`.
    UnreadableDevice,
    /// It names a cluster this server does not configure.
    UnknownCluster(String),
    /// Ask the cluster it names how its task stands.
    Probe {
        /// The cluster to ask.
        cluster: String,
        /// The request to send.
        request: Request,
    },
}

/// What startup recovery does, as a mathematical value.
pub enum RecoveryView {
    NotApplying { stray_handle: bool },
    NoHandle,
    UnreadableHandle,
    UnreadableDevice,
    UnknownCluster(Seq<char>),
    Probe { cluster: Seq<char>, request: RequestView },
}

impl View for Recovery {
    type V = RecoveryView;

    open spec fn view(&self) -> RecoveryView {
        match self {
            Recovery::NotApplying { stray_handle } => RecoveryView::NotApplying {
                stray_handle: *stray_handle,
            },
            Recovery::NoHandle => RecoveryView::NoHandle,
            Recovery::UnreadableHandle => RecoveryView::UnreadableHandle,
            Recovery::UnreadableDevice => RecoveryView::UnreadableDevice,
            Recovery::UnknownCluster(name) => RecoveryView::UnknownCluster(name@),
            Recovery::Probe { cluster, request } => RecoveryView::Probe {
                cluster: cluster@,
                request: request@,
            },
        }
    }
}

/// What startup recovery does about one stored change set. The cluster is the
/// one the record names: a handle names a node, and two clusters can both have
/// a node of that name.
pub open spec fn recovery_for(record: ChangeSetView, clusters: Seq<Seq<char>>) -> RecoveryView {
    if record.state != StateNameView::Applying {
        RecoveryView::NotApplying { stray_handle: record.task_id is Some }
    } else {
        match record.task_id {
            None => RecoveryView::NoHandle,
            Some(handle) => match upid_of(handle) {
                None => RecoveryView::UnreadableHandle,
                Some(upid) => match split_once(record.device, "/"@) {
                    None => RecoveryView::UnreadableDevice,
                    Some((cluster, _)) => if clusters.contains(cluster) {
                        RecoveryView::Probe {
                            cluster,
                            request: crate::guests::bare(
                                crate::client::Method::Get,
                                task_status_path(upid.node, handle),
                            ),
                        }
                    } else {
                        RecoveryView::UnknownCluster(cluster)
                    },
                },
            },
        }
    }
}

/// Decide what startup recovery does about one stored change set.
pub fn recover_in_flight(record: &ChangeSetRecord, clusters: &Vec<String>) -> (r: Recovery)
    ensures
        r@ == recovery_for(record@, texts(clusters@)),
{
    match &record.state {
        ChangeSetState::Applying => {},
        _ => {
            return Recovery::NotApplying { stray_handle: record.task_id.is_some() };
        },
    }
    let handle = match &record.task_id {
        Some(handle) => handle.as_str(),
        None => {
            return Recovery::NoHandle;
        },
    };
    let upid = match Upid::parse(handle) {
        Ok(upid) => upid,
        Err(_) => {
            return Recovery::UnreadableHandle;
        },
    };
    let cluster = match split_text_once(record.device.as_str(), "/") {
        Some((cluster, _)) => cluster,
        None => {
            return Recovery::UnreadableDevice;
        },
    };
    if !contains_text(clusters.as_slice(), cluster.as_str()) {
        return Recovery::UnknownCluster(cluster);
    }
    let request = task_status(upid.node(), handle);
    Recovery::Probe { cluster, request }
}

/// What the cluster's answer makes of a change set that was in flight.
#[derive(Debug)]
pub enum Recovered {
    /// Its task still runs; the record stays as it is.
    StillRunning,
    /// Its task has stopped without an exit status; the record stays as it is.
    NoExitStatus,
    /// Its task has ended.
    Settled {
        /// The receipt that closes the evidence.
        receipt: Receipt,
        /// What the record becomes.
        update: RecordUpdate,
    },
}

/// What an answer makes of a change set, as a mathematical value.
pub enum RecoveredView {
    StillRunning,
    NoExitStatus,
    Settled { receipt: ReceiptView, update: UpdateView },
}

impl View for Recovered {
    type V = RecoveredView;

    open spec fn view(&self) -> RecoveredView {
        match self {
            Recovered::StillRunning => RecoveredView::StillRunning,
            Recovered::NoExitStatus => RecoveredView::NoExitStatus,
            Recovered::Settled { receipt, update } => RecoveredView::Settled {
                receipt: receipt@,
                update: update@,
            },
        }
    }
}

/// What a task's status makes of a change set that was in flight. A stopped
/// task without an exit status is an answer nobody has: it settles nothing.
pub open spec fn recovered(
    record: ChangeSetView,
    status: Option<Seq<char>>,
    exitstatus: Option<Seq<char>>,
) -> RecoveredView {
    if status == Some("running"@) {
        RecoveredView::StillRunning
    } else {
        match exitstatus {
            None => RecoveredView::NoExitStatus,
            Some(exit) => RecoveredView::Settled {
                receipt: ReceiptView {
                    request_id: record.id,
                    change_set_id: record.id,
                    device: record.device,
                    principal: RECOVERED_EXECUTOR@,
                    succeeded: exit == "OK"@,
                    detail: exit_detail(exit),
                },
                update: UpdateView { state: exit_state(exit), task_id: None },
            },
        }
    }
}

/// Decide what a task's status makes of a change set that was in flight.
pub fn recover_outcome(
    record: &ChangeSetRecord,
    status: Option<String>,
    exitstatus: Option<String>,
) -> (r: Recovered)
    ensures
        r@ == recovered(record@, text_option(status), text_option(exitstatus)),
{
    if let Some(status) = &status {
        if same_text(status.as_str(), "running") {
            return Recovered::StillRunning;
        }
    }
    let exit = match exitstatus {
        Some(exit) => exit,
        None => {
            return Recovered::NoExitStatus;
        },
    };
    let succeeded = same_text(exit.as_str(), "OK");
    Recovered::Settled {
        receipt: Receipt {
            request_id: record.id.clone(),
            change_set_id: record.id.clone(),
            device: record.device.clone(),
            principal: RECOVERED_EXECUTOR.to_owned(),
            succeeded,
            detail: if succeeded {
                String::new()
            } else {
                exit
            },
        },
        update: RecordUpdate {
            state: if succeeded {
                ChangeSetState::Applied
            } else {
                ChangeSetState::Failed
            },
            task_id: None,
        },
    }
}

/// Decide what the data of a status answer makes of a change set that was in
/// flight.
pub fn recover_answer(record: &ChangeSetRecord, data: &str) -> (r: Recovered)
    ensures
        r@ == recovered(
            record@,
            text_member(data_value(data@), "status"@),
            text_member(data_value(data@), "exitstatus"@),
        ),
{
    let (status, exitstatus) = status_fields(data);
    recover_outcome(record, status, exitstatus)
}

// ---------------------------------------------------------------------------
// What holds of every apply
// ---------------------------------------------------------------------------
/// Recovery never invents an outcome: a record is settled only on an exit
/// status that was observed of a task that no longer runs, it is applied
/// exactly when that status is `OK`, and the receipt names no person.
pub proof fn law_recovery_never_invents_an_outcome(
    record: ChangeSetView,
    status: Option<Seq<char>>,
    exitstatus: Option<Seq<char>>,
)
    ensures
        recovered(record, status, exitstatus) is Settled <==> status != Some("running"@)
            && exitstatus is Some,
        recovered(record, status, exitstatus) matches RecoveredView::Settled { receipt, update } ==> {
            &&& update.state == exit_state(exitstatus->0)
            &&& update.task_id is None
            &&& receipt.succeeded <==> exitstatus->0 == "OK"@
            &&& receipt.principal == RECOVERED_EXECUTOR@
        },
{
}

/// The handle an apply stores before following its task is one that recovery
/// asks after: on the cluster the change set was planned for, and on the node
/// the handle names.
pub proof fn law_a_stored_handle_is_recoverable(
    record: ChangeSetView,
    caller: Option<CallerView>,
    handle: Seq<char>,
    report: Option<ReportView>,
    cluster: Seq<char>,
    vmid: u32,
    clusters: Seq<Seq<char>>,
)
    requires
        after_answer(record, caller, Ok((handle, report))) is Follow,
        record.device == device_text(cluster, vmid),
        !cluster.contains('/'),
        clusters.contains(cluster),
    ensures
        ({
            let update = after_answer(record, caller, Ok((handle, report)))->update;
            let stored = ChangeSetView { state: update.state, task_id: update.task_id, ..record };
            recovery_for(stored, clusters) == RecoveryView::Probe {
                cluster,
                request: crate::guests::bare(
                    crate::client::Method::Get,
                    task_status_path(upid_of(handle)->0.node, handle),
                ),
            }
        }),
{
    reveal_strlit("/");
    assert("/"@ =~= seq!['/']);
    lemma_split_at_first(cluster, '/', decimal(vmid as nat));
}

/// An error without a definitive answer settles nothing: no receipt is written
/// and the record stays as it was.
pub proof fn law_an_indefinite_error_settles_nothing(
    record: ChangeSetView,
    caller: Option<CallerView>,
    error: ErrorView,
)
    requires
        !error.definitive(),
    ensures
        after_answer(record, caller, Err(error)) == AfterView::Settled(
            SettlementView { receipt: None, update: None, reply: Err(error.message()) },
        ),
{
}

/// What is told to the caller and what is written down agree: an apply that is
/// settled is reported as gone through exactly when its receipt says so, and
/// the receipt names the caller.
pub proof fn law_reply_and_receipt_agree(
    record: ChangeSetView,
    caller: Option<CallerView>,
    handle: Seq<char>,
    exitstatus: Seq<char>,
)
    ensures
        ({
            let end = after_exit(record, caller, handle, exitstatus);
            &&& end.reply is Ok <==> end.receipt->0.succeeded
            &&& end.reply is Ok <==> end.update->0.state == StateNameView::Applied
            &&& end.reply is Err <==> end.update->0.state == StateNameView::Failed
            &&& end.receipt->0.principal == principal_text(caller)
        }),
{
}

/// Whether a receipt is about a change set and in the name of who applied it.
pub open spec fn is_receipt_for(
    receipt: ReceiptView,
    record: ChangeSetView,
    caller: Option<CallerView>,
) -> bool {
    &&& receipt.change_set_id == record.id
    &&& receipt.device == record.device
    &&& caller is Some ==> receipt.principal == caller->0.token_name && receipt.request_id
        == caller->0.request_id
    &&& caller is None ==> receipt.principal == "stdio"@ && receipt.request_id == "stdio"@
}

/// The end of a followed task is recorded as it was observed. Exactly the exit
/// status `OK` is a success: the receipt says so without a detail, the change
/// set becomes applied and the caller is given the handle and the status. Any
/// other is a failure: the receipt's detail and the caller's refusal carry the
/// status, and the change set becomes failed. Either way the receipt is about
/// this change set, in the name of who applied it, and no handle is kept.
pub proof fn law_an_exit_is_recorded_as_observed(
    record: ChangeSetView,
    caller: Option<CallerView>,
    handle: Seq<char>,
    exitstatus: Seq<char>,
)
    ensures
        ({
            let end = after_exit(record, caller, handle, exitstatus);
            &&& end.receipt is Some && is_receipt_for(end.receipt->0, record, caller)
            &&& end.update is Some && end.update->0.task_id is None
            &&& end.receipt->0.succeeded <==> exitstatus == "OK"@
            &&& exitstatus == "OK"@ ==> end.receipt->0.detail.len() == 0
            &&& exitstatus != "OK"@ ==> end.receipt->0.detail == exitstatus
            &&& end.update->0.state == StateNameView::Applied <==> exitstatus == "OK"@
            &&& end.update->0.state == StateNameView::Failed <==> exitstatus != "OK"@
            &&& exitstatus == "OK"@ ==> end.reply == Ok::<ReplyView, Seq<char>>(
                (ReplyView::Completed { upid: handle, exitstatus }),
            )
            &&& exitstatus != "OK"@ ==> end.reply == Err::<ReplyView, Seq<char>>(
                "task failed: "@ + exitstatus,
            )
        }),
{
}

/// What the cluster refused is recorded as failed with its own words, and the
/// record keeps the handle it had; after a request whose fate nobody knows,
/// nothing is recorded. The caller is told the error either way.
pub proof fn law_a_refused_request_is_recorded_as_failed(
    record: ChangeSetView,
    caller: Option<CallerView>,
    error: ErrorView,
)
    ensures
        ({
            let end = after_error(record, caller, error);
            let refused = error is Api || error is Unauthorized || error is Denied || error
                is NotFound;
            &&& end.reply == Err::<ReplyView, Seq<char>>(error.message())
            &&& end.receipt is Some <==> refused
            &&& end.update is Some <==> refused
            &&& refused ==> {
                &&& is_receipt_for(end.receipt->0, record, caller)
                &&& !end.receipt->0.succeeded
                &&& end.receipt->0.detail == error.message()
                &&& end.update->0.state == StateNameView::Failed
                &&& end.update->0.task_id == record.task_id
            }
        }),
{
}

/// An answer without a handle is work that is done: it is recorded as applied,
/// and the caller is given a command's result where there is one. An answer
/// with a handle is work to follow, on the node the handle names: the handle is
/// stored with the change set, as being applied, and nothing is recorded yet. A
/// handle that cannot be read settles nothing.
pub proof fn law_an_answer_is_done_or_followed(
    record: ChangeSetView,
    caller: Option<CallerView>,
    handle: Seq<char>,
    report: Option<ReportView>,
)
    ensures
        ({
            let next = after_answer(record, caller, Ok((handle, report)));
            &&& handle.len() == 0 ==> {
                &&& next is Settled
                &&& next->Settled_0.receipt is Some
                &&& is_receipt_for(next->Settled_0.receipt->0, record, caller)
                &&& next->Settled_0.receipt->0.succeeded
                &&& next->Settled_0.receipt->0.detail.len() == 0
                &&& next->Settled_0.update == Some(
                    (UpdateView { state: StateNameView::Applied, task_id: None }),
                )
                &&& next->Settled_0.reply == Ok::<ReplyView, Seq<char>>(
                    (ReplyView::Synchronous { execution: report }),
                )
            }
            &&& next is Follow <==> handle.len() > 0 && upid_of(handle) is Some
            &&& next matches AfterView::Follow { node, handle: stored, update } ==> {
                &&& node == upid_of(handle)->0.node
                &&& stored == handle
                &&& update.state == StateNameView::Applying
                &&& update.task_id == Some(handle)
            }
            &&& handle.len() > 0 && upid_of(handle) is None ==> {
                &&& next is Settled
                &&& next->Settled_0.receipt is None
                &&& next->Settled_0.update is None
                &&& next->Settled_0.reply is Err
            }
        }),
{
}

/// What recovery settles is recorded as observed: applied exactly on the exit
/// status `OK`, failed with the status for a detail on any other, about the
/// change set and the device of the record, in nobody's name.
pub proof fn law_a_recovered_outcome_is_recorded_as_observed(
    record: ChangeSetView,
    status: Option<Seq<char>>,
    exit: Seq<char>,
)
    requires
        status != Some("running"@),
    ensures
        recovered(record, status, Some(exit)) is Settled,
        recovered(record, status, Some(exit)) matches RecoveredView::Settled { receipt, update }
            ==> {
            &&& receipt.change_set_id == record.id
            &&& receipt.request_id == record.id
            &&& receipt.device == record.device
            &&& receipt.principal == "unknown:recovered-at-startup"@
            &&& receipt.succeeded <==> exit == "OK"@
            &&& exit == "OK"@ ==> receipt.detail.len() == 0 && update.state
                == StateNameView::Applied
            &&& exit != "OK"@ ==> receipt.detail == exit && update.state == StateNameView::Failed
            &&& update.task_id is None
        },
        recovered(record, Some("running"@), Some(exit)) is StillRunning,
        recovered(record, status, None) is NoExitStatus,
{
}

/// Recovery asks only after a change set that is being applied and has a handle
/// that can be read: with a GET of that task's status, on the node the handle
/// names, from the cluster the device names. Everything else it leaves alone
/// and says why.
pub proof fn law_recovery_asks_after_the_stored_task(
    record: ChangeSetView,
    clusters: Seq<Seq<char>>,
    cluster: Seq<char>,
    rest: Seq<char>,
)
    requires
        record.device == cluster + "/"@ + rest,
        !cluster.contains('/'),
    ensures
        ({
            let next = recovery_for(record, clusters);
            &&& next is NotApplying <==> record.state != StateNameView::Applying
            &&& next matches RecoveryView::NotApplying { stray_handle } ==> stray_handle
                == record.task_id is Some
            &&& record.state == StateNameView::Applying && record.task_id is None ==> next
                is NoHandle
            &&& record.state == StateNameView::Applying && record.task_id is Some ==> {
                let upid = upid_of(record.task_id->0);
                &&& upid is None ==> next is UnreadableHandle
                &&& upid is Some && !clusters.contains(cluster) ==> next
                    == RecoveryView::UnknownCluster(cluster)
                &&& upid is Some && clusters.contains(cluster) ==> {
                    &&& next is Probe
                    &&& next->Probe_cluster == cluster
                    &&& next->Probe_request.method == crate::client::Method::Get
                    &&& next->Probe_request.path_template == "/api2/json/nodes/"@ + upid->0.node
                        + "/tasks/"@ + join(split(record.task_id->0, ':'), "%3A"@) + "/status"@
                    &&& next->Probe_request.query.len() == 0
                    &&& next->Probe_request.form.len() == 0
                }
            }
        }),
{
    reveal_strlit("/");
    assert("/"@ =~= seq!['/']);
    lemma_split_at_first(cluster, '/', rest);
}

proof fn lemma_told_behind(head: Seq<char>, a: Seq<char>, b: Seq<char>, c: Seq<char>)
    ensures
        has_text(head + a + b + c, a + b + c),
        has_text(head + a + b, a + b),
        has_text(head + a, a),
{
    lemma_together(head, a, b);
    lemma_together(head, a + b, c);
    lemma_has_end(head, a + b + c);
    lemma_has_end(head, a + b);
    lemma_has_end(head, a);
}

/// A caller who stops following a task is told how often its status was read,
/// and what ended the following.
pub proof fn law_a_failed_poll_is_told_in_full(failure: PollFailure)
    ensures
        failure matches PollFailure::Cancelled { attempts } ==> has_text(
            poll_failure_text(failure),
            decimal(attempts as nat) + " attempt(s)"@,
        ),
        failure matches PollFailure::DeadlineExceeded { attempts, deadline } ==> has_text(
            poll_failure_text(failure),
            deadline@ + " deadline after "@ + decimal(attempts as nat),
        ),
        failure matches PollFailure::Probe { attempts, source } ==> has_text(
            poll_failure_text(failure),
            decimal(attempts as nat) + ": "@ + source@,
        ),
        failure matches PollFailure::Config(error) ==> has_text(poll_failure_text(failure), error@),
{
    let none = Seq::<char>::empty();
    match failure {
        PollFailure::Cancelled { attempts } => {
            lemma_told_behind(
                "polling cancelled after "@,
                decimal(attempts as nat),
                " attempt(s)"@,
                none,
            );
        },
        PollFailure::DeadlineExceeded { attempts, deadline } => {
            let head = "polling exceeded its "@;
            let part = deadline@ + " deadline after "@ + decimal(attempts as nat);
            let shorter = head + deadline@ + " deadline after "@ + decimal(attempts as nat);
            lemma_told_behind(head, deadline@, " deadline after "@, decimal(attempts as nat));
            lemma_has_middle(none, shorter, " attempt(s)"@);
            assert(none + shorter =~= shorter);
            lemma_has_inner(poll_failure_text(failure), shorter, part);
        },
        PollFailure::Probe { attempts, source } => {
            lemma_told_behind("probe failed on attempt "@, decimal(attempts as nat), ": "@, source@);
        },
        PollFailure::Config(error) => {
            lemma_told_behind("invalid poll configuration: "@, error@, none, none);
        },
    }
}

} // verus!
