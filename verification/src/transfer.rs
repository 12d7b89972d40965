//! The transfer of one snapshot: a producer that sends it, a consumer that
//! receives it, and the verdict on how the pair ended.

use crate::command::{push_arg, tool, tool_on};
use crate::dataset::{snapshot_name, snapshot_of};
use crate::plan::{plan_of, PlanView, ReplicationPlan};
use crate::text::same_text;
use vstd::prelude::*;

verus! {

/// For each child, in order, the flag that leaves it out of a transfer and
/// its name.
pub open spec fn exclusion_flags(children: Seq<Seq<char>>) -> Seq<Seq<char>>
    decreases children.len(),
{
    if children.len() == 0 {
        Seq::empty()
    } else {
        exclusion_flags(children.drop_last()) + seq!["-X"@, children.last()]
    }
}

/// The producer's flags that depend on the run: a dry run sends nothing, an
/// encrypted source is sent raw.
pub open spec fn send_switches(encrypted: bool, dry_run: bool) -> Seq<Seq<char>> {
    (if dry_run {
        seq!["-n"@]
    } else {
        Seq::empty()
    }) + (if encrypted {
        seq!["-w"@]
    } else {
        Seq::empty()
    })
}

/// The base of an incremental transfer, as the producer is told of it.
pub open spec fn base_flags(source: Seq<char>, previous: Option<Seq<char>>) -> Seq<Seq<char>> {
    match previous {
        Some(tag) => seq!["-i"@, snapshot_of(source, tag)],
        None => Seq::empty(),
    }
}

/// The producer's command line. It always keeps the dataset's properties
/// and skips snapshots that the other side has under the same name; it
/// leaves out every child; its last argument is the snapshot to send.
pub open spec fn send_argv(host: Seq<char>, plan: PlanView, dry_run: bool) -> Seq<Seq<char>> {
    tool_on(host) + seq!["send"@] + send_switches(plan.encrypted, dry_run) + seq!["-R"@, "-s"@]
        + exclusion_flags(plan.child_exclusions) + base_flags(plan.source, plan.previous)
        + seq![snapshot_of(plan.source, plan.current)]
}

/// The value that the consumer sets the mount property to.
pub open spec fn mount_setting(canmount: bool) -> Seq<char> {
    if canmount {
        "canmount=on"@
    } else {
        "canmount=off"@
    }
}

/// The properties that the consumer drops from the stream, so that the
/// received dataset takes them from the dataset above it.
pub open spec fn inherit_flags(inherit: bool) -> Seq<Seq<char>> {
    if inherit {
        seq!["-x"@, "encryption"@, "-x"@, "keylocation"@, "-x"@, "keyformat"@]
    } else {
        Seq::empty()
    }
}

/// The consumer's command line. It always sets the mount property, rolls
/// back what is in the way on the target and leaves the received dataset
/// unmounted; its last argument is the dataset to receive into.
pub open spec fn receive_argv(
    host: Seq<char>,
    target_parent: Seq<char>,
    dry_run: bool,
    canmount: bool,
    inherit: bool,
) -> Seq<Seq<char>> {
    tool_on(host) + seq!["recv"@] + (if dry_run {
        seq!["-n"@]
    } else {
        Seq::empty()
    }) + seq!["-v"@, "-e"@, "-o"@, mount_setting(canmount)] + inherit_flags(inherit) + seq![
        "-F"@,
        "-u"@,
        target_parent,
    ]
}

/// Whether the consumer makes the received dataset inherit its encryption:
/// only for an unencrypted source, and only where the job asks for it.
pub open spec fn inherits_encryption(encrypted: bool, inherit_encryption: bool) -> bool {
    !encrypted && inherit_encryption
}

/// A plan whose base is the very snapshot to send has nothing to transfer.
pub open spec fn nothing_to_send(plan: PlanView) -> bool {
    plan.previous == Some(plan.current)
}

/// The two command lines of a transfer.
#[derive(Clone, Debug, PartialEq, Eq)]
pub struct Pipeline {
    /// Sends the snapshot; its output is the consumer's input.
    pub producer: Vec<String>,
    /// Receives the snapshot.
    pub consumer: Vec<String>,
}

/// The producer's command line for `plan`, run on `host`; with `dry_run` it
/// sends nothing.
pub fn send_command(host: &str, plan: &ReplicationPlan, dry_run: bool) -> (argv: Vec<String>)
    ensures
        argv.deep_view() == send_argv(host@, plan@, dry_run),
{
    let mut argv = tool(host);
    push_arg(&mut argv, "send");
    if dry_run {
        push_arg(&mut argv, "-n");
    }
    if plan.encrypted {
        push_arg(&mut argv, "-w");
    }
    assert(argv.deep_view() =~= tool_on(host@) + seq!["send"@] + send_switches(
        plan.encrypted,
        dry_run,
    ));
    push_arg(&mut argv, "-R");
    push_arg(&mut argv, "-s");
    let ghost head = argv.deep_view();
    assert(head =~= tool_on(host@) + seq!["send"@] + send_switches(plan.encrypted, dry_run)
        + seq!["-R"@, "-s"@]);
    let ghost children = plan.child_exclusions.deep_view();
    let mut i: usize = 0;
    assert(children.take(0) =~= Seq::<Seq<char>>::empty());
    assert(argv.deep_view() =~= head + exclusion_flags(children.take(0)));
    while i < plan.child_exclusions.len()
        invariant
            i <= plan.child_exclusions@.len(),
            children == plan.child_exclusions.deep_view(),
            argv.deep_view() == head + exclusion_flags(children.take(i as int)),
        decreases plan.child_exclusions@.len() - i,
    {
        let ghost before = argv.deep_view();
        push_arg(&mut argv, "-X");
        push_arg(&mut argv, plan.child_exclusions[i].as_str());
        proof {
            let next = children.take(i + 1);
            assert(next.drop_last() =~= children.take(i as int));
            assert(next.last() == plan.child_exclusions@[i as int]@);
            assert(argv.deep_view() =~= before + seq!["-X"@, next.last()]);
            assert(argv.deep_view() =~= head + exclusion_flags(next));
        }
        i = i + 1;
    }
    assert(children.take(children.len() as int) =~= children);
    let ghost body = argv.deep_view();
    match &plan.previous {
        Some(tag) => {
            push_arg(&mut argv, "-i");
            let base = snapshot_name(plan.source.as_str(), tag.as_str());
            push_arg(&mut argv, base.as_str());
            assert(argv.deep_view() =~= body + base_flags(plan@.source, plan@.previous));
        },
        None => {
            assert(argv.deep_view() =~= body + base_flags(plan@.source, plan@.previous));
        },
    }
    let snapshot = snapshot_name(plan.source.as_str(), plan.current.as_str());
    push_arg(&mut argv, snapshot.as_str());
    assert(argv.deep_view() =~= send_argv(host@, plan@, dry_run));
    argv
}

/// The consumer's command line, run on `host`, receiving into
/// `target_parent`. With `dry_run` it writes nothing; `canmount` is the mount
/// property to set; with `inherit` the stream's encryption properties are
/// dropped.
pub fn receive_command(
    host: &str,
    target_parent: &str,
    dry_run: bool,
    canmount: bool,
    inherit: bool,
) -> (argv: Vec<String>)
    ensures
        argv.deep_view() == receive_argv(host@, target_parent@, dry_run, canmount, inherit),
{
    let mut argv = tool(host);
    push_arg(&mut argv, "recv");
    if dry_run {
        push_arg(&mut argv, "-n");
    }
    push_arg(&mut argv, "-v");
    push_arg(&mut argv, "-e");
    push_arg(&mut argv, "-o");
    if canmount {
        push_arg(&mut argv, "canmount=on");
    } else {
        push_arg(&mut argv, "canmount=off");
    }
    if inherit {
        push_arg(&mut argv, "-x");
        push_arg(&mut argv, "encryption");
        push_arg(&mut argv, "-x");
        push_arg(&mut argv, "keylocation");
        push_arg(&mut argv, "-x");
        push_arg(&mut argv, "keyformat");
    }
    push_arg(&mut argv, "-F");
    push_arg(&mut argv, "-u");
    push_arg(&mut argv, target_parent);
    assert(argv.deep_view() =~= receive_argv(host@, target_parent@, dry_run, canmount, inherit));
    argv
}

/// Whether `plan` has nothing to transfer because its base is the snapshot
/// to send.
pub fn is_nothing_to_send(plan: &ReplicationPlan) -> (nothing: bool)
    ensures
        nothing == nothing_to_send(plan@),
{
    match &plan.previous {
        Some(tag) => same_text(tag.as_str(), plan.current.as_str()),
        None => false,
    }
}

/// The transfer for `plan` from `source_host` into `target_parent` on
/// `target_host`; `None` where the plan has nothing to transfer. A send-side
/// dry run makes the receiving side a dry run too.
pub fn replicate(
    source_host: &str,
    target_host: &str,
    target_parent: &str,
    plan: &ReplicationPlan,
    canmount: bool,
    inherit_encryption: bool,
    send_no_op: bool,
    recv_no_op: bool,
) -> (pipeline: Option<Pipeline>)
    ensures
        pipeline is None <==> nothing_to_send(plan@),
        match pipeline {
            Some(pair) => {
                &&& pair.producer.deep_view() == send_argv(source_host@, plan@, send_no_op)
                &&& pair.consumer.deep_view() == receive_argv(
                    target_host@,
                    target_parent@,
                    send_no_op || recv_no_op,
                    canmount,
                    inherits_encryption(plan@.encrypted, inherit_encryption),
                )
            },
            None => true,
        },
{
    if is_nothing_to_send(plan) {
        None
    } else {
        Some(
            Pipeline {
                producer: send_command(source_host, plan, send_no_op),
                consumer: receive_command(
                    target_host,
                    target_parent,
                    send_no_op || recv_no_op,
                    canmount,
                    !plan.encrypted && inherit_encryption,
                ),
            },
        )
    }
}

/// How a producer and consumer pair ended, as the caller that ran it saw it.
#[derive(Clone, Copy, Debug, PartialEq, Eq)]
pub struct PipeReport {
    /// Whether both processes were started and connected.
    pub started: bool,
    /// Whether the producer exited with status zero; `None` where waiting for
    /// it failed.
    pub sent: Option<bool>,
    /// Whether the consumer exited with status zero; `None` where waiting for
    /// it failed.
    pub received: Option<bool>,
    /// Whether the consumer's own output was read to its end.
    pub drained: bool,
}

/// The verdict on one transfer.
#[derive(Clone, Copy, Debug, PartialEq, Eq, Structural)]
pub enum TransferOutcome {
    /// Both sides reported success.
    Succeeded,
    /// Both sides reported success, but the consumer's output could not be
    /// read to its end.
    SucceededUnread,
    /// The producer failed.
    SendFailed,
    /// The producer succeeded and the consumer failed.
    ReceiveFailed,
    /// The pair could not be started, connected or awaited.
    Aborted,
}

impl TransferOutcome {
    /// Whether the snapshot was replicated.
    pub open spec fn replicated(self) -> bool {
        self is Succeeded || self is SucceededUnread
    }

    /// Whether the snapshot was replicated.
    pub fn is_replicated(self) -> (replicated: bool)
        ensures
            replicated == self.replicated(),
    {
        match self {
            TransferOutcome::Succeeded => true,
            TransferOutcome::SucceededUnread => true,
            _ => false,
        }
    }
}

/// The verdict on a transfer that ended as `report` says. The producer is
/// judged first: where it failed, the consumer's exit does not matter.
pub open spec fn outcome_of(report: PipeReport) -> TransferOutcome {
    if !report.started {
        TransferOutcome::Aborted
    } else {
        match report.sent {
            None => TransferOutcome::Aborted,
            Some(false) => TransferOutcome::SendFailed,
            Some(true) => match report.received {
                None => TransferOutcome::Aborted,
                Some(false) => TransferOutcome::ReceiveFailed,
                Some(true) => if report.drained {
                    TransferOutcome::Succeeded
                } else {
                    TransferOutcome::SucceededUnread
                },
            },
        }
    }
}

/// The verdict on a transfer that ended as `report` says.
pub fn judge_transfer(report: &PipeReport) -> (outcome: TransferOutcome)
    ensures
        outcome == outcome_of(*report),
{
    if !report.started {
        return TransferOutcome::Aborted;
    }
    match report.sent {
        None => TransferOutcome::Aborted,
        Some(false) => TransferOutcome::SendFailed,
        Some(true) => match report.received {
            None => TransferOutcome::Aborted,
            Some(false) => TransferOutcome::ReceiveFailed,
            Some(true) => if report.drained {
                TransferOutcome::Succeeded
            } else {
                TransferOutcome::SucceededUnread
            },
        },
    }
}

/// A transfer replicates exactly where the pair was started and both sides
/// reported success. A producer that failed decides the verdict whatever
/// the consumer reported; a consumer's failure is the verdict only after
/// the producer's success.
pub proof fn lemma_verdict(report: PipeReport)
    ensures
        outcome_of(report).replicated() <==> report.started && report.sent == Some(true)
            && report.received == Some(true),
        report.started && report.sent == Some(false) ==> outcome_of(report) is SendFailed,
        outcome_of(report) is ReceiveFailed <==> report.started && report.sent == Some(true)
            && report.received == Some(false),
{
}

/// Whatever the planner plans has something to send: a planned base is
/// never the snapshot to send.
pub proof fn lemma_planned_transfer_sends(
    source: Seq<char>,
    current: Seq<char>,
    last: Seq<char>,
    exists: bool,
    encrypted: bool,
    children: Seq<Seq<char>>,
)
    ensures
        match plan_of(source, current, last, exists, encrypted, children) {
            Some(plan) => plan.well_formed() && !nothing_to_send(plan),
            None => true,
        },
{
}

} // verus!
