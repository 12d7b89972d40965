//! Deciding what to do for one dataset: nothing, an incremental transfer, a
//! full transfer, or to keep away from a target that looks foreign.

use crate::inspect::no_lines;
use crate::text::same_text;
use vstd::prelude::*;

verus! {

/// What the planner decides for one dataset.
#[derive(Clone, Copy, Debug, PartialEq, Eq, Structural)]
pub enum PlanState {
    /// The target already has the current snapshot.
    NoOp,
    /// Send what lies between the snapshot replicated last and the current
    /// one.
    Incremental,
    /// Send the current snapshot whole.
    Full,
    /// The target dataset exists but holds no snapshot: a full transfer could
    /// destroy data that this tool never put there.
    UnsafeBlocked,
    /// The source has no snapshot to send. No plan is made.
    Skipped,
}

/// The planner's decision as a function of the tag replicated last (empty:
/// none), the current tag on the source (empty: none) and whether the target
/// dataset exists.
pub open spec fn plan_state_of(last: Seq<char>, current: Seq<char>, exists: bool) -> PlanState {
    if current.len() == 0 {
        PlanState::Skipped
    } else if last.len() > 0 {
        if last == current {
            PlanState::NoOp
        } else {
            PlanState::Incremental
        }
    } else if exists {
        PlanState::UnsafeBlocked
    } else {
        PlanState::Full
    }
}

/// Whether the decision depends on the target dataset's existence: it does
/// where there is a current snapshot and nothing was replicated yet.
pub open spec fn existence_matters(last: Seq<char>, current: Seq<char>) -> bool {
    last.len() == 0 && current.len() > 0
}

/// A transfer to carry out for one dataset.
#[derive(Clone, Debug, PartialEq, Eq)]
pub struct ReplicationPlan {
    /// The dataset to send.
    pub source: String,
    /// The tag of the snapshot to send.
    pub current: String,
    /// The tag of the base of an incremental transfer; `None` for a full one.
    pub previous: Option<String>,
    /// Whether the source is encrypted.
    pub encrypted: bool,
    /// The immediate children of the source, which this transfer leaves out.
    pub child_exclusions: Vec<String>,
}

/// What a `ReplicationPlan` holds, as character sequences.
#[verifier::ext_equal]
pub struct PlanView {
    pub source: Seq<char>,
    pub current: Seq<char>,
    pub previous: Option<Seq<char>>,
    pub encrypted: bool,
    pub child_exclusions: Seq<Seq<char>>,
}

impl View for ReplicationPlan {
    type V = PlanView;

    open spec fn view(&self) -> PlanView {
        PlanView {
            source: self.source@,
            current: self.current@,
            previous: match self.previous {
                Some(tag) => Some(tag@),
                None => None,
            },
            encrypted: self.encrypted,
            child_exclusions: self.child_exclusions.deep_view(),
        }
    }
}

impl PlanView {
    /// A plan names a snapshot to send, and a base, if any, that is another
    /// snapshot.
    pub open spec fn well_formed(self) -> bool {
        &&& self.current.len() > 0
        &&& match self.previous {
            Some(tag) => tag.len() > 0 && tag != self.current,
            None => true,
        }
    }
}

/// The plan for one dataset, where its state calls for a transfer.
pub open spec fn plan_of(
    source: Seq<char>,
    current: Seq<char>,
    last: Seq<char>,
    exists: bool,
    encrypted: bool,
    children: Seq<Seq<char>>,
) -> Option<PlanView> {
    match plan_state_of(last, current, exists) {
        PlanState::Full => Some(
            PlanView { source, current, previous: None, encrypted, child_exclusions: children },
        ),
        PlanState::Incremental => Some(
            PlanView {
                source,
                current,
                previous: Some(last),
                encrypted,
                child_exclusions: children,
            },
        ),
        _ => None,
    }
}

/// The planner's decision for the tag replicated last, the current tag and
/// the target dataset's existence.
pub fn plan_state(last: &str, current: &str, exists_on_target: bool) -> (state: PlanState)
    ensures
        state == plan_state_of(last@, current@, exists_on_target),
{
    if current.is_empty() {
        PlanState::Skipped
    } else if !last.is_empty() {
        if same_text(last, current) {
            PlanState::NoOp
        } else {
            PlanState::Incremental
        }
    } else if exists_on_target {
        PlanState::UnsafeBlocked
    } else {
        PlanState::Full
    }
}

/// Whether the planner has to know if the target dataset exists.
pub fn needs_existence_check(last: &str, current: &str) -> (needed: bool)
    ensures
        needed == existence_matters(last@, current@),
{
    last.is_empty() && !current.is_empty()
}

/// A copy of a list of names.
pub fn copy_names(names: &Vec<String>) -> (copy: Vec<String>)
    ensures
        copy.deep_view() == names.deep_view(),
{
    let mut copy = no_lines();
    let mut i: usize = 0;
    while i < names.len()
        invariant
            i <= names@.len(),
            copy.deep_view() == names.deep_view().take(i as int),
        decreases names@.len() - i,
    {
        let ghost before = copy.deep_view();
        copy.push(names[i].clone());
        assert(copy.deep_view() =~= before.push(names@[i as int]@));
        assert(before.push(names@[i as int]@) =~= names.deep_view().take(i + 1));
        i = i + 1;
    }
    assert(names.deep_view().take(names@.len() as int) =~= names.deep_view());
    copy
}

/// Plans the transfer for one dataset: decides its state and, where that
/// calls for a transfer, says what to send.
pub fn plan_replication(
    source: &str,
    current: &str,
    last: &str,
    exists_on_target: bool,
    encrypted: bool,
    children: &Vec<String>,
) -> (planned: (PlanState, Option<ReplicationPlan>))
    ensures
        planned.0 == plan_state_of(last@, current@, exists_on_target),
        planned.1 is Some <==> (planned.0 is Full || planned.0 is Incremental),
        match planned.1 {
            Some(plan) => Some(plan@) == plan_of(
                source@,
                current@,
                last@,
                exists_on_target,
                encrypted,
                children.deep_view(),
            ) && plan@.well_formed(),
            None => plan_of(
                source@,
                current@,
                last@,
                exists_on_target,
                encrypted,
                children.deep_view(),
            ) is None,
        },
{
    let state = plan_state(last, current, exists_on_target);
    let plan = match state {
        PlanState::Full => Some(
            ReplicationPlan {
                source: source.to_string(),
                current: current.to_string(),
                previous: None,
                encrypted,
                child_exclusions: copy_names(children),
            },
        ),
        PlanState::Incremental => Some(
            ReplicationPlan {
                source: source.to_string(),
                current: current.to_string(),
                previous: Some(last.to_string()),
                encrypted,
                child_exclusions: copy_names(children),
            },
        ),
        _ => None,
    };
    (state, plan)
}

/// The four states as conditions on the three inputs. This holds wherever
/// the source has a snapshot or the target has one; with neither, the
/// dataset is skipped whether or not the target exists.
pub proof fn lemma_plan_state_conditions(last: Seq<char>, current: Seq<char>, exists: bool)
    requires
        last.len() > 0 || current.len() > 0,
    ensures
        plan_state_of(last, current, exists) is NoOp <==> last == current && last.len() > 0,
        plan_state_of(last, current, exists) is Incremental <==> last.len() > 0 && current.len()
            > 0 && last != current,
        plan_state_of(last, current, exists) is Full <==> last.len() == 0 && !exists,
        plan_state_of(last, current, exists) is UnsafeBlocked <==> last.len() == 0 && exists,
{
}

/// With no snapshot on the source nothing is planned, whatever the target
/// holds.
pub proof fn lemma_skipped_without_snapshot(last: Seq<char>, exists: bool)
    ensures
        plan_state_of(last, Seq::empty(), exists) is Skipped,
        forall|current: Seq<char>|
            plan_state_of(last, current, exists) is Skipped <==> current.len() == 0,
{
}

/// Where the target's existence does not matter, the decision is the same
/// for either answer.
pub proof fn lemma_existence_irrelevant(last: Seq<char>, current: Seq<char>, a: bool, b: bool)
    requires
        !existence_matters(last, current),
    ensures
        plan_state_of(last, current, a) == plan_state_of(last, current, b),
{
}

/// Planning again changes nothing: once a transfer has made the source's
/// current snapshot the one replicated last, and the source has not changed,
/// the planner decides to do nothing; and a decision to do nothing is
/// repeated as long as neither side changes.
pub proof fn lemma_replanning_is_noop(
    last: Seq<char>,
    current: Seq<char>,
    exists: bool,
    exists_after: bool,
)
    ensures
        (plan_state_of(last, current, exists) is Full || plan_state_of(last, current, exists)
            is Incremental) ==> plan_state_of(current, current, exists_after) is NoOp,
        plan_state_of(last, current, exists) is NoOp ==> plan_state_of(
            last,
            current,
            exists_after,
        ) is NoOp,
{
}

} // verus!
