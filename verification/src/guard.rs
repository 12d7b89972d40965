//! Pinning the snapshots that the next incremental transfer rests on.
//!
//! After every transfer attempt, whatever came of it, the snapshot just sent
//! is held on both sides, so that no pruning removes it before the next run;
//! the base it superseded is released on both sides.

use crate::command::{push_arg, tool, tool_on, Capture};
use crate::dataset::{snapshot_name, snapshot_of, target_path, target_path_of};
use crate::plan::{PlanView, ReplicationPlan};
use vstd::prelude::*;

verus! {

/// The two things done to a snapshot's pin.
#[derive(Clone, Copy, Debug, PartialEq, Eq, Structural)]
pub enum HoldAction {
    Hold,
    Release,
}

/// The storage tool's verb for `action`.
pub open spec fn verb_of(action: HoldAction) -> Seq<char> {
    match action {
        HoldAction::Hold => "hold"@,
        HoldAction::Release => "release"@,
    }
}

/// The command line that holds or releases `snapshot` on `host`, under this
/// tool's own pin name.
pub open spec fn hold_argv(host: Seq<char>, snapshot: Seq<char>, action: HoldAction) -> Seq<
    Seq<char>,
> {
    tool_on(host) + seq![verb_of(action), "piper"@, snapshot]
}

/// The full name of the snapshot `tag` of `source` as it stands on the
/// target, below `target_parent`.
pub open spec fn target_snapshot_of(
    target_parent: Seq<char>,
    source: Seq<char>,
    tag: Seq<char>,
) -> Seq<char> {
    snapshot_of(target_path_of(target_parent, source), tag)
}

/// The pins to set after a transfer for `plan`, in order: hold the snapshot
/// just sent on the source, then on the target; then, where the transfer had
/// a base, release the base on the source, then on the target.
pub open spec fn guard_argvs(
    source_host: Seq<char>,
    target_host: Seq<char>,
    target_parent: Seq<char>,
    plan: PlanView,
) -> Seq<Seq<Seq<char>>> {
    seq![
        hold_argv(source_host, snapshot_of(plan.source, plan.current), HoldAction::Hold),
        hold_argv(
            target_host,
            target_snapshot_of(target_parent, plan.source, plan.current),
            HoldAction::Hold,
        ),
    ] + (match plan.previous {
        Some(tag) => seq![
            hold_argv(source_host, snapshot_of(plan.source, tag), HoldAction::Release),
            hold_argv(
                target_host,
                target_snapshot_of(target_parent, plan.source, tag),
                HoldAction::Release,
            ),
        ],
        None => Seq::empty(),
    })
}

/// A hold or release worked where the command ran, its diagnostics could be
/// read, and it exited with status zero.
pub open spec fn hold_ok(outcome: Option<Capture>) -> bool {
    match outcome {
        Some(capture) => capture.stderr is Some && capture.success,
        None => false,
    }
}

/// The command line that holds or releases `snapshot` on `host`.
pub fn snapshot_hold(host: &str, snapshot: &str, action: HoldAction) -> (argv: Vec<String>)
    ensures
        argv.deep_view() == hold_argv(host@, snapshot@, action),
{
    let mut argv = tool(host);
    match action {
        HoldAction::Hold => push_arg(&mut argv, "hold"),
        HoldAction::Release => push_arg(&mut argv, "release"),
    }
    push_arg(&mut argv, "piper");
    push_arg(&mut argv, snapshot);
    assert(argv.deep_view() =~= hold_argv(host@, snapshot@, action));
    argv
}

/// Whether the hold or release that `outcome` reports worked. A failure is
/// worth reporting and changes nothing else.
pub fn hold_succeeded(outcome: &Option<Capture>) -> (ok: bool)
    ensures
        ok == hold_ok(*outcome),
{
    match outcome {
        Some(capture) => capture.stderr.is_some() && capture.success,
        None => false,
    }
}

/// The full name of the snapshot `tag` of `source` on the target.
pub fn target_snapshot(target_parent: &str, source: &str, tag: &str) -> (name: String)
    ensures
        name@ == target_snapshot_of(target_parent@, source@, tag@),
{
    let dataset = target_path(target_parent, source);
    snapshot_name(dataset.as_str(), tag)
}

/// The commands that pin what a transfer for `plan` used, in the order in
/// which they are to run.
pub fn guard_commands(
    source_host: &str,
    target_host: &str,
    target_parent: &str,
    plan: &ReplicationPlan,
) -> (commands: Vec<Vec<String>>)
    ensures
        commands.deep_view() == guard_argvs(source_host@, target_host@, target_parent@, plan@),
{
    let mut commands: Vec<Vec<String>> = Vec::new();
    let here = snapshot_name(plan.source.as_str(), plan.current.as_str());
    let there = target_snapshot(target_parent, plan.source.as_str(), plan.current.as_str());
    commands.push(snapshot_hold(source_host, here.as_str(), HoldAction::Hold));
    commands.push(snapshot_hold(target_host, there.as_str(), HoldAction::Hold));
    match &plan.previous {
        Some(tag) => {
            let old_here = snapshot_name(plan.source.as_str(), tag.as_str());
            let old_there = target_snapshot(target_parent, plan.source.as_str(), tag.as_str());
            commands.push(snapshot_hold(source_host, old_here.as_str(), HoldAction::Release));
            commands.push(snapshot_hold(target_host, old_there.as_str(), HoldAction::Release));
        },
        None => {},
    }
    assert(commands.deep_view() =~= guard_argvs(
        source_host@,
        target_host@,
        target_parent@,
        plan@,
    ));
    commands
}

/// After a transfer the snapshot just sent is held on the source and on the
/// target, in that order, and the base is released on both exactly where
/// there was one; nothing else is done.
pub proof fn lemma_guard(
    source_host: Seq<char>,
    target_host: Seq<char>,
    target_parent: Seq<char>,
    plan: PlanView,
)
    ensures
        ({
            let pins = guard_argvs(source_host, target_host, target_parent, plan);
            &&& pins.len() == (if plan.previous is Some {
                4int
            } else {
                2int
            })
            &&& pins[0] == hold_argv(
                source_host,
                snapshot_of(plan.source, plan.current),
                HoldAction::Hold,
            )
            &&& pins[1] == hold_argv(
                target_host,
                target_snapshot_of(target_parent, plan.source, plan.current),
                HoldAction::Hold,
            )
            &&& plan.previous is Some ==> pins[2] == hold_argv(
                source_host,
                snapshot_of(plan.source, plan.previous.unwrap()),
                HoldAction::Release,
            ) && pins[3] == hold_argv(
                target_host,
                target_snapshot_of(target_parent, plan.source, plan.previous.unwrap()),
                HoldAction::Release,
            )
        }),
{
}

} // verus!
