//! Walking a job's dataset tree, one dataset at a time.
//!
//! The walk is a state machine. It never runs a command itself: each step
//! names the command, or the producer and consumer pair, that its caller is
//! to run, and the next step takes what came of it. A dataset is dealt with
//! completely (queries, transfer, pins) before the walk descends to its
//! children, and its children are visited in the order in which they were
//! listed, each with everything below it, before the walk moves on.

use crate::command::{
    children_argv, children_query, encryption_argv, encryption_query, existence_argv,
    existence_query, login_argv, login_command, snapshots_argv, snapshots_query, Capture,
};
use crate::dataset::{basename_of, target_path, target_path_of};
use crate::guard::{guard_argvs, guard_commands};
use crate::inspect::{
    can_login_to_host, children_in, does_dataset_exist_on_target, encrypted_in, exists_in,
    get_child_datasets, is_dataset_encrypted, login_ok, no_lines,
};
use crate::job::{JobSpec, JobSpecView};
use crate::plan::{
    existence_matters, needs_existence_check, plan_of, plan_replication, plan_state_of, PlanState,
    PlanView, ReplicationPlan,
};
use crate::select::{
    get_last_replicated_snapshot, get_most_recent_snapshot, last_replicated_in, most_recent_in,
};
use crate::transfer::{
    inherits_encryption, judge_transfer, nothing_to_send, outcome_of, receive_argv, replicate,
    send_argv, PipeReport, Pipeline, TransferOutcome,
};
use vstd::prelude::*;

verus! {

/// Where the walk stands: which answer it waits for.
#[derive(Clone, Copy, Debug, PartialEq, Eq, Structural)]
pub enum Phase {
    /// The login test on the source host.
    SourceLogin,
    /// The login test on the target host.
    TargetLogin,
    /// The encryption state of the dataset being visited.
    Encryption,
    /// The snapshots of the dataset being visited.
    Current,
    /// The snapshots of its counterpart on the target.
    Previous,
    /// The children of the dataset being visited.
    Children,
    /// Whether its counterpart on the target exists.
    Existence,
    /// How the transfer ended.
    Transfer,
    /// How a hold or release ended.
    Guard,
    /// Nothing: the walk is over.
    Finished,
}

/// A dataset to visit, as character sequences.
#[verifier::ext_equal]
pub struct NodeView {
    /// The dataset on the source.
    pub source: Seq<char>,
    /// The dataset on the target that it is received into.
    pub target: Seq<char>,
}

/// What became of one visited dataset, as character sequences.
#[verifier::ext_equal]
pub struct ReportView {
    /// The dataset on the source.
    pub source: Seq<char>,
    /// Its counterpart on the target.
    pub target: Seq<char>,
    pub state: PlanState,
    /// How the transfer ended, where one was run.
    pub outcome: Option<TransferOutcome>,
}

/// What the caller is to do next, as character sequences.
#[verifier::ext_equal]
pub enum ActionView {
    /// Run this command and report its outcome.
    Run(Seq<Seq<char>>),
    /// Run the first command with its output feeding the second, and report
    /// how the pair ended.
    Pipe(Seq<Seq<char>>, Seq<Seq<char>>),
    /// Nothing more.
    Stop,
}

/// What the caller reports back.
#[derive(Clone, Debug, PartialEq, Eq)]
pub enum Event {
    /// The outcome of a command; `None` where it could not be run.
    Ran(Option<Capture>),
    /// How a producer and consumer pair ended.
    Piped(PipeReport),
}

/// The command outcome that `event` carries; a report of another kind
/// counts as a command that could not be run.
pub open spec fn ran_in(event: Event) -> Option<Capture> {
    match event {
        Event::Ran(outcome) => outcome,
        Event::Piped(_) => None,
    }
}

/// The pair's report that `event` carries; a report of another kind counts
/// as a pair that could not be started.
pub open spec fn piped_in(event: Event) -> PipeReport {
    match event {
        Event::Piped(report) => report,
        Event::Ran(_) => PipeReport { started: false, sent: None, received: None, drained: false },
    }
}

/// The nodes for the `children` of `node`: each child is received into the
/// dataset that `node` itself lands in.
pub open spec fn child_nodes(node: NodeView, children: Seq<Seq<char>>) -> Seq<NodeView> {
    children.map_values(
        |child: Seq<char>| NodeView { source: child, target: target_path_of(node.target, node.source) },
    )
}

/// The state of a walk.
#[verifier::ext_equal]
pub struct WalkerView {
    pub job: JobSpecView,
    /// A dry run on the sending side.
    pub send_no_op: bool,
    /// A dry run on the receiving side.
    pub recv_no_op: bool,
    pub phase: Phase,
    /// The datasets still to visit, in visiting order. The first is the one
    /// being visited.
    pub pending: Seq<NodeView>,
    /// What is known of the dataset being visited.
    pub encrypted: bool,
    pub current: Seq<char>,
    pub previous: Seq<char>,
    pub children: Seq<Seq<char>>,
    /// The transfer under way for it.
    pub plan: Option<PlanView>,
    /// The holds and releases still to run for it.
    pub pins: Seq<Seq<Seq<char>>>,
    /// The host whose login test failed.
    pub unreachable: Option<Seq<char>>,
    /// What became of the datasets visited so far, in visiting order.
    pub reports: Seq<ReportView>,
}

impl WalkerView {
    /// The dataset being visited.
    pub open spec fn node(self) -> NodeView {
        self.pending[0]
    }

    /// Where the dataset being visited lands on the target.
    pub open spec fn landing(self) -> Seq<char> {
        target_path_of(self.node().target, self.node().source)
    }

    /// The same walk with nothing known of the dataset being visited.
    pub open spec fn cleared(self) -> WalkerView {
        WalkerView {
            encrypted: false,
            current: Seq::empty(),
            previous: Seq::empty(),
            children: Seq::empty(),
            plan: None,
            pins: Seq::empty(),
            ..self
        }
    }

    /// The walk over.
    pub open spec fn halted(self) -> (WalkerView, ActionView) {
        (WalkerView { phase: Phase::Finished, ..self.cleared() }, ActionView::Stop)
    }

    /// The walk before its first step: the job's own dataset is the one
    /// node to visit.
    pub open spec fn initial(job: JobSpecView, send_no_op: bool, recv_no_op: bool) -> WalkerView {
        WalkerView {
            job,
            send_no_op,
            recv_no_op,
            phase: Phase::SourceLogin,
            pending: seq![NodeView { source: job.source_path, target: job.target_path }],
            encrypted: false,
            current: Seq::empty(),
            previous: Seq::empty(),
            children: Seq::empty(),
            plan: None,
            pins: Seq::empty(),
            unreachable: None,
            reports: Seq::empty(),
        }
    }

    /// The first step of a job: test the login on each remote host, source
    /// first, before any dataset is looked at.
    pub open spec fn start(job: JobSpecView, send_no_op: bool, recv_no_op: bool) -> (
        WalkerView,
        ActionView,
    ) {
        let walk = Self::initial(job, send_no_op, recv_no_op);
        if job.source_host.len() > 0 {
            (walk, ActionView::Run(login_argv(job.source_host)))
        } else {
            walk.source_reached()
        }
    }

    /// On with the target host once the source host is known to be
    /// reachable.
    pub open spec fn source_reached(self) -> (WalkerView, ActionView) {
        if self.job.target_host.len() > 0 {
            (
                WalkerView { phase: Phase::TargetLogin, ..self },
                ActionView::Run(login_argv(self.job.target_host)),
            )
        } else {
            self.enter()
        }
    }

    /// Gives the job up because `host` cannot be reached.
    pub open spec fn give_up(self, host: Seq<char>) -> (WalkerView, ActionView) {
        WalkerView { unreachable: Some(host), ..self }.halted()
    }

    /// Begins the visit of the first pending dataset, or ends the walk where
    /// none is left.
    pub open spec fn enter(self) -> (WalkerView, ActionView) {
        if self.pending.len() == 0 {
            self.halted()
        } else {
            (
                WalkerView { phase: Phase::Encryption, ..self.cleared() },
                ActionView::Run(encryption_argv(self.job.source_host, self.node().source)),
            )
        }
    }

    /// Ends the visit of the dataset being visited. In a recursive job its
    /// children are visited next, in the order in which they were listed,
    /// before anything that was pending already.
    pub open spec fn leave(self) -> (WalkerView, ActionView) {
        let below = if self.job.recursive {
            child_nodes(self.node(), self.children)
        } else {
            Seq::empty()
        };
        WalkerView { pending: below + self.pending.drop_first(), ..self }.enter()
    }

    /// The same walk with one more report, on the dataset being visited.
    pub open spec fn reported(self, state: PlanState, outcome: Option<TransferOutcome>) -> WalkerView {
        WalkerView {
            reports: self.reports.push(
                ReportView { source: self.node().source, target: self.landing(), state, outcome },
            ),
            ..self
        }
    }

    /// Decides what to do for the dataset being visited, all queries
    /// answered. A transfer is started where the planner calls for one;
    /// otherwise the visit ends here.
    pub open spec fn decide(self, exists: bool) -> (WalkerView, ActionView) {
        let state = plan_state_of(self.previous, self.current, exists);
        match plan_of(
            self.node().source,
            self.current,
            self.previous,
            exists,
            self.encrypted,
            self.children,
        ) {
            Some(plan) => if nothing_to_send(plan) {
                self.reported(state, None).leave()
            } else {
                (
                    WalkerView { phase: Phase::Transfer, plan: Some(plan), ..self },
                    ActionView::Pipe(
                        send_argv(self.job.source_host, plan, self.send_no_op),
                        receive_argv(
                            self.job.target_host,
                            self.node().target,
                            self.send_no_op || self.recv_no_op,
                            self.job.canmount,
                            inherits_encryption(plan.encrypted, self.job.inherit_encryption),
                        ),
                    ),
                )
            },
            None => self.reported(state, None).leave(),
        }
    }

    /// The state that a plan stands for.
    pub open spec fn state_of(plan: PlanView) -> PlanState {
        if plan.previous is Some {
            PlanState::Incremental
        } else {
            PlanState::Full
        }
    }

    /// Takes the verdict on the transfer. Every attempt is followed by the
    /// pins, whatever came of it: whether it succeeded, failed, or could not
    /// even be started, connected or awaited.
    pub open spec fn transferred(self, report: PipeReport) -> (WalkerView, ActionView) {
        match self.plan {
            Some(plan) => {
                let outcome = outcome_of(report);
                let walk = self.reported(Self::state_of(plan), Some(outcome));
                WalkerView {
                    phase: Phase::Guard,
                    pins: guard_argvs(
                        self.job.source_host,
                        self.job.target_host,
                        self.node().target,
                        plan,
                    ),
                    ..walk
                }.pin()
            },
            None => self.leave(),
        }
    }

    /// Runs the next hold or release; once none is left the visit ends.
    pub open spec fn pin(self) -> (WalkerView, ActionView) {
        if self.pins.len() > 0 {
            (WalkerView { pins: self.pins.drop_first(), ..self }, ActionView::Run(self.pins[0]))
        } else {
            self.leave()
        }
    }

    /// One step: the state after `event`, and what to do next.
    pub open spec fn step(self, event: Event) -> (WalkerView, ActionView) {
        if self.pending.len() == 0 {
            self.halted()
        } else {
            match self.phase {
                Phase::SourceLogin => if login_ok(ran_in(event)) {
                    self.source_reached()
                } else {
                    self.give_up(self.job.source_host)
                },
                Phase::TargetLogin => if login_ok(ran_in(event)) {
                    self.enter()
                } else {
                    self.give_up(self.job.target_host)
                },
                Phase::Encryption => (
                    WalkerView {
                        phase: Phase::Current,
                        encrypted: encrypted_in(ran_in(event)),
                        ..self
                    },
                    ActionView::Run(snapshots_argv(self.job.source_host, self.node().source)),
                ),
                Phase::Current => (
                    WalkerView {
                        phase: Phase::Previous,
                        current: most_recent_in(ran_in(event), self.job.prefix),
                        ..self
                    },
                    ActionView::Run(snapshots_argv(self.job.target_host, self.landing())),
                ),
                Phase::Previous => (
                    WalkerView {
                        phase: Phase::Children,
                        previous: last_replicated_in(ran_in(event)),
                        ..self
                    },
                    ActionView::Run(children_argv(self.job.source_host, self.node().source)),
                ),
                Phase::Children => {
                    let walk = WalkerView { children: children_in(ran_in(event)), ..self };
                    if existence_matters(walk.previous, walk.current) {
                        (
                            WalkerView { phase: Phase::Existence, ..walk },
                            ActionView::Run(existence_argv(self.job.target_host, self.landing())),
                        )
                    } else {
                        walk.decide(false)
                    }
                },
                Phase::Existence => self.decide(exists_in(ran_in(event))),
                Phase::Transfer => self.transferred(piped_in(event)),
                Phase::Guard => self.pin(),
                Phase::Finished => self.halted(),
            }
        }
    }
}


/// A dataset to visit.
#[derive(Clone, Debug, PartialEq, Eq)]
pub struct Node {
    /// The dataset on the source.
    pub source: String,
    /// The dataset on the target that it is received into.
    pub target: String,
}

impl DeepView for Node {
    type V = NodeView;

    open spec fn deep_view(&self) -> NodeView {
        NodeView { source: self.source@, target: self.target@ }
    }
}

/// What became of one visited dataset.
#[derive(Clone, Debug, PartialEq, Eq)]
pub struct Report {
    /// The dataset on the source.
    pub source: String,
    /// Its counterpart on the target.
    pub target: String,
    /// What the planner decided for it.
    pub state: PlanState,
    /// How the transfer ended, where one was run.
    pub outcome: Option<TransferOutcome>,
}

impl DeepView for Report {
    type V = ReportView;

    open spec fn deep_view(&self) -> ReportView {
        ReportView {
            source: self.source@,
            target: self.target@,
            state: self.state,
            outcome: self.outcome,
        }
    }
}

/// What the caller is to do next.
#[derive(Clone, Debug, PartialEq, Eq)]
pub enum Action {
    /// Run this command and report its outcome.
    Run(Vec<String>),
    /// Run the producer with its output feeding the consumer, and report how
    /// the pair ended.
    Pipe(Pipeline),
    /// Nothing more.
    Stop,
}

impl View for Action {
    type V = ActionView;

    open spec fn view(&self) -> ActionView {
        match self {
            Action::Run(argv) => ActionView::Run(argv.deep_view()),
            Action::Pipe(pair) => ActionView::Pipe(
                pair.producer.deep_view(),
                pair.consumer.deep_view(),
            ),
            Action::Stop => ActionView::Stop,
        }
    }
}

/// The command outcome that `event` carries.
pub fn ran_of(event: Event) -> (outcome: Option<Capture>)
    ensures
        outcome == ran_in(event),
{
    match event {
        Event::Ran(outcome) => outcome,
        Event::Piped(_) => None,
    }
}

/// The pair's report that `event` carries.
pub fn piped_of(event: Event) -> (report: PipeReport)
    ensures
        report == piped_in(event),
{
    match event {
        Event::Piped(report) => report,
        Event::Ran(_) => PipeReport { started: false, sent: None, received: None, drained: false },
    }
}

/// The nodes for the `children` of `node`.
pub fn nodes_below(node: &Node, children: &Vec<String>) -> (below: Vec<Node>)
    ensures
        below.deep_view() == child_nodes(node.deep_view(), children.deep_view()),
{
    let landing = target_path(node.target.as_str(), node.source.as_str());
    let mut below: Vec<Node> = Vec::new();
    let mut i: usize = 0;
    assert(below.deep_view() =~= child_nodes(node.deep_view(), children.deep_view()).take(0));
    while i < children.len()
        invariant
            i <= children@.len(),
            landing@ == target_path_of(node.target@, node.source@),
            below.deep_view() == child_nodes(node.deep_view(), children.deep_view()).take(i as int),
        decreases children@.len() - i,
    {
        let ghost before = below.deep_view();
        let child = Node { source: children[i].clone(), target: landing.clone() };
        below.push(child);
        assert(below.deep_view() =~= before.push(child.deep_view()));
        assert(before.push(child.deep_view()) =~= child_nodes(
            node.deep_view(),
            children.deep_view(),
        ).take(i + 1));
        i = i + 1;
    }
    assert(child_nodes(node.deep_view(), children.deep_view()).take(children@.len() as int)
        =~= child_nodes(node.deep_view(), children.deep_view()));
    below
}


/// A walk over the dataset tree of one job.
pub struct Walker {
    job: JobSpec,
    send_no_op: bool,
    recv_no_op: bool,
    phase: Phase,
    pending: Vec<Node>,
    encrypted: bool,
    current: String,
    previous: String,
    children: Vec<String>,
    plan: Option<ReplicationPlan>,
    pins: Vec<Vec<String>>,
    unreachable: Option<String>,
    reports: Vec<Report>,
}

impl View for Walker {
    type V = WalkerView;

    closed spec fn view(&self) -> WalkerView {
        WalkerView {
            job: self.job@,
            send_no_op: self.send_no_op,
            recv_no_op: self.recv_no_op,
            phase: self.phase,
            pending: self.pending.deep_view(),
            encrypted: self.encrypted,
            current: self.current@,
            previous: self.previous@,
            children: self.children.deep_view(),
            plan: match self.plan {
                Some(plan) => Some(plan@),
                None => None,
            },
            pins: self.pins.deep_view(),
            unreachable: match self.unreachable {
                Some(host) => Some(host@),
                None => None,
            },
            reports: self.reports.deep_view(),
        }
    }
}

impl Walker {
    /// Begins the walk for `job`. With `send_no_op` nothing is sent, with
    /// `recv_no_op` nothing is written on the target.
    pub fn start(job: JobSpec, send_no_op: bool, recv_no_op: bool) -> (first: (Walker, Action))
        ensures
            (first.0@, first.1@) == WalkerView::start(job@, send_no_op, recv_no_op),
            first.0@.well_formed(),
    {
        proof {
            lemma_start_well_formed(job@, send_no_op, recv_no_op);
        }
        let root = Node { source: job.source.path.clone(), target: job.target.path.clone() };
        let mut pending: Vec<Node> = Vec::new();
        pending.push(root);
        let pins: Vec<Vec<String>> = Vec::new();
        let reports: Vec<Report> = Vec::new();
        let ghost spec_job = job@;
        let walk = Walker {
            job,
            send_no_op,
            recv_no_op,
            phase: Phase::SourceLogin,
            pending,
            encrypted: false,
            current: String::new(),
            previous: String::new(),
            children: no_lines(),
            plan: None,
            pins,
            unreachable: None,
            reports,
        };
        proof {
            let initial = WalkerView::initial(spec_job, send_no_op, recv_no_op);
            assert(walk@.pending =~= initial.pending);
            assert(walk@.pins =~= initial.pins);
            assert(walk@.reports =~= initial.reports);
            assert(walk@ =~= initial);
        }
        if walk.job.source.is_remote() {
            let argv = login_command(walk.job.source.host.as_str());
            (walk, Action::Run(argv))
        } else {
            walk.source_reached()
        }
    }

    /// The phase that the walk is in.
    pub fn phase(&self) -> (phase: Phase)
        ensures
            phase == self@.phase,
    {
        self.phase
    }

    /// Whether the walk is over.
    pub fn is_finished(&self) -> (finished: bool)
        ensures
            finished == (self@.phase is Finished),
    {
        match self.phase {
            Phase::Finished => true,
            _ => false,
        }
    }

    /// The host whose login test failed and ended the walk.
    pub fn unreachable_host(&self) -> (host: Option<String>)
        ensures
            match host {
                Some(name) => self@.unreachable == Some(name@),
                None => self@.unreachable is None,
            },
    {
        match &self.unreachable {
            Some(name) => Some(name.clone()),
            None => None,
        }
    }

    /// What became of the datasets visited so far, in visiting order.
    pub fn reports(&self) -> (reports: &Vec<Report>)
        ensures
            reports.deep_view() == self@.reports,
    {
        &self.reports
    }

    /// The datasets still to visit, in visiting order.
    pub fn pending(&self) -> (pending: &Vec<Node>)
        ensures
            pending.deep_view() == self@.pending,
    {
        &self.pending
    }

    fn cleared(self) -> (walk: Walker)
        ensures
            walk@ == self@.cleared(),
    {
        let pins: Vec<Vec<String>> = Vec::new();
        let walk = Walker {
            encrypted: false,
            current: String::new(),
            previous: String::new(),
            children: no_lines(),
            plan: None,
            pins,
            ..self
        };
        proof {
            assert(walk@.pins =~= self@.cleared().pins);
            assert(walk@ =~= self@.cleared());
        }
        walk
    }

    fn halted(self) -> (next: (Walker, Action))
        ensures
            (next.0@, next.1@) == self@.halted(),
    {
        let walk = self.cleared();
        (Walker { phase: Phase::Finished, ..walk }, Action::Stop)
    }

    fn source_reached(self) -> (next: (Walker, Action))
        ensures
            (next.0@, next.1@) == self@.source_reached(),
    {
        if self.job.target.is_remote() {
            let argv = login_command(self.job.target.host.as_str());
            (Walker { phase: Phase::TargetLogin, ..self }, Action::Run(argv))
        } else {
            self.enter()
        }
    }

    fn give_up(self, host: String) -> (next: (Walker, Action))
        ensures
            (next.0@, next.1@) == self@.give_up(host@),
    {
        Walker { unreachable: Some(host), ..self }.halted()
    }

    fn enter(self) -> (next: (Walker, Action))
        ensures
            (next.0@, next.1@) == self@.enter(),
    {
        if self.pending.len() == 0 {
            self.halted()
        } else {
            let argv = encryption_query(
                self.job.source.host.as_str(),
                self.pending[0].source.as_str(),
            );
            let walk = self.cleared();
            (Walker { phase: Phase::Encryption, ..walk }, Action::Run(argv))
        }
    }

    fn leave(self) -> (next: (Walker, Action))
        requires
            self@.pending.len() > 0,
        ensures
            (next.0@, next.1@) == self@.leave(),
    {
        let mut below = if self.job.recursive {
            nodes_below(&self.pending[0], &self.children)
        } else {
            let none: Vec<Node> = Vec::new();
            assert(none.deep_view() =~= Seq::<NodeView>::empty());
            none
        };
        let ghost spec_below = below.deep_view();
        let ghost old_self = self@;
        let mut rest = self.pending;
        rest.remove(0);
        assert(rest.deep_view() =~= old_self.pending.drop_first());
        below.append(&mut rest);
        assert(below.deep_view() =~= spec_below + old_self.pending.drop_first());
        Walker { pending: below, ..self }.enter()
    }

    fn reported(self, state: PlanState, outcome: Option<TransferOutcome>) -> (walk: Walker)
        requires
            self@.pending.len() > 0,
        ensures
            walk@ == self@.reported(state, outcome),
    {
        let report = Report {
            source: self.pending[0].source.clone(),
            target: target_path(self.pending[0].target.as_str(), self.pending[0].source.as_str()),
            state,
            outcome,
        };
        let ghost old_self = self@;
        let mut reports = self.reports;
        reports.push(report);
        assert(reports.deep_view() =~= old_self.reports.push(report.deep_view()));
        let walk = Walker { reports, ..self };
        assert(walk@ =~= old_self.reported(state, outcome));
        walk
    }

    fn decide(self, exists: bool) -> (next: (Walker, Action))
        requires
            self@.pending.len() > 0,
        ensures
            (next.0@, next.1@) == self@.decide(exists),
    {
        let (state, plan) = plan_replication(
            self.pending[0].source.as_str(),
            self.current.as_str(),
            self.previous.as_str(),
            exists,
            self.encrypted,
            &self.children,
        );
        match plan {
            Some(plan) => {
                let pipeline = replicate(
                    self.job.source.host.as_str(),
                    self.job.target.host.as_str(),
                    self.pending[0].target.as_str(),
                    &plan,
                    self.job.canmount,
                    self.job.inherit_encryption,
                    self.send_no_op,
                    self.recv_no_op,
                );
                match pipeline {
                    Some(pair) => (
                        Walker { phase: Phase::Transfer, plan: Some(plan), ..self },
                        Action::Pipe(pair),
                    ),
                    None => self.reported(state, None).leave(),
                }
            },
            None => self.reported(state, None).leave(),
        }
    }

    fn transferred(self, report: PipeReport) -> (next: (Walker, Action))
        requires
            self@.pending.len() > 0,
        ensures
            (next.0@, next.1@) == self@.transferred(report),
    {
        match &self.plan {
            Some(plan) => {
                let outcome = judge_transfer(&report);
                let state = if plan.previous.is_some() {
                    PlanState::Incremental
                } else {
                    PlanState::Full
                };
                let pins = guard_commands(
                    self.job.source.host.as_str(),
                    self.job.target.host.as_str(),
                    self.pending[0].target.as_str(),
                    plan,
                );
                let walk = self.reported(state, Some(outcome));
                Walker { phase: Phase::Guard, pins, ..walk }.pin()
            },
            None => self.leave(),
        }
    }

    fn pin(self) -> (next: (Walker, Action))
        requires
            self@.pending.len() > 0,
        ensures
            (next.0@, next.1@) == self@.pin(),
    {
        if self.pins.len() > 0 {
            let ghost old_self = self@;
            let mut pins = self.pins;
            let argv = pins.remove(0);
            assert(pins.deep_view() =~= old_self.pins.drop_first());
            assert(argv.deep_view() == old_self.pins[0]);
            (Walker { pins, ..self }, Action::Run(argv))
        } else {
            self.leave()
        }
    }

    /// Takes what came of the action asked for last and says what to do
    /// next. Once the walk is over every step says to stop.
    pub fn step(self, event: Event) -> (next: (Walker, Action))
        ensures
            (next.0@, next.1@) == self@.step(event),
            self@.well_formed() ==> next.0@.well_formed(),
    {
        proof {
            if self@.well_formed() {
                lemma_step_well_formed(self@, event);
            }
        }
        if self.pending.len() == 0 {
            return self.halted();
        }
        match self.phase {
            Phase::SourceLogin => {
                let outcome = ran_of(event);
                if can_login_to_host(&outcome) {
                    self.source_reached()
                } else {
                    let host = self.job.source.host.clone();
                    self.give_up(host)
                }
            },
            Phase::TargetLogin => {
                let outcome = ran_of(event);
                if can_login_to_host(&outcome) {
                    self.enter()
                } else {
                    let host = self.job.target.host.clone();
                    self.give_up(host)
                }
            },
            Phase::Encryption => {
                let outcome = ran_of(event);
                let encrypted = is_dataset_encrypted(&outcome);
                let argv = snapshots_query(
                    self.job.source.host.as_str(),
                    self.pending[0].source.as_str(),
                );
                (Walker { phase: Phase::Current, encrypted, ..self }, Action::Run(argv))
            },
            Phase::Current => {
                let outcome = ran_of(event);
                let current = get_most_recent_snapshot(&outcome, self.job.prefix.as_str());
                let landing = target_path(
                    self.pending[0].target.as_str(),
                    self.pending[0].source.as_str(),
                );
                let argv = snapshots_query(self.job.target.host.as_str(), landing.as_str());
                (Walker { phase: Phase::Previous, current, ..self }, Action::Run(argv))
            },
            Phase::Previous => {
                let outcome = ran_of(event);
                let previous = get_last_replicated_snapshot(&outcome);
                let argv = children_query(
                    self.job.source.host.as_str(),
                    self.pending[0].source.as_str(),
                );
                (Walker { phase: Phase::Children, previous, ..self }, Action::Run(argv))
            },
            Phase::Children => {
                let outcome = ran_of(event);
                let children = get_child_datasets(&outcome);
                let walk = Walker { children, ..self };
                if needs_existence_check(walk.previous.as_str(), walk.current.as_str()) {
                    let landing = target_path(
                        walk.pending[0].target.as_str(),
                        walk.pending[0].source.as_str(),
                    );
                    let argv = existence_query(walk.job.target.host.as_str(), landing.as_str());
                    (Walker { phase: Phase::Existence, ..walk }, Action::Run(argv))
                } else {
                    walk.decide(false)
                }
            },
            Phase::Existence => {
                let outcome = ran_of(event);
                let exists = does_dataset_exist_on_target(&outcome);
                self.decide(exists)
            },
            Phase::Transfer => {
                let report = piped_of(event);
                self.transferred(report)
            },
            Phase::Guard => self.pin(),
            Phase::Finished => self.halted(),
        }
    }
}

impl WalkerView {
    /// What holds of every state that a walk goes through. A walk that is
    /// not over has a dataset to visit; a plan is kept exactly while its
    /// transfer or its pins are under way, and it is a plan for the dataset
    /// being visited; pins are queued only in the guard phase; a host is
    /// marked unreachable only by the login test that ended the walk.
    pub open spec fn well_formed(self) -> bool {
        &&& self.phase is Finished || self.pending.len() > 0
        &&& self.plan is Some <==> (self.phase is Transfer || self.phase is Guard)
        &&& self.pins.len() > 0 ==> self.phase is Guard
        &&& match self.plan {
            Some(plan) => {
                &&& plan.well_formed()
                &&& plan.source == self.node().source
                &&& plan.current == self.current
                &&& plan.child_exclusions == self.children
                &&& plan.encrypted == self.encrypted
            },
            None => true,
        }
        &&& self.unreachable is Some ==> self.phase is Finished
        &&& (self.phase is SourceLogin || self.phase is TargetLogin) ==> self.reports.len() == 0
    }

    /// The states and actions of several steps in a row.
    pub open spec fn run(self, events: Seq<Event>) -> (WalkerView, Seq<ActionView>)
        decreases events.len(),
    {
        if events.len() == 0 {
            (self, Seq::empty())
        } else {
            let (next, action) = self.step(events[0]);
            let (last, actions) = next.run(events.drop_first());
            (last, seq![action] + actions)
        }
    }
}

/// A walk begins in a well-formed state.
pub proof fn lemma_start_well_formed(job: JobSpecView, send_no_op: bool, recv_no_op: bool)
    ensures
        WalkerView::start(job, send_no_op, recv_no_op).0.well_formed(),
{
}

/// Every step of a walk leads from a well-formed state to a well-formed
/// state.
pub proof fn lemma_step_well_formed(walk: WalkerView, event: Event)
    requires
        walk.well_formed(),
    ensures
        walk.step(event).0.well_formed(),
{
}

/// The target path is composed the same way at every level: each child
/// of the dataset being visited is received into the parent's own landing
/// place, which is the parent's target, a slash, and the last component of
/// the parent's source. In a recursive job the children come next, in the
/// order in which they were listed, before everything that was pending
/// already; otherwise they are not visited at all.
pub proof fn lemma_descent(walk: WalkerView)
    requires
        walk.pending.len() > 0,
    ensures
        ({
            let next = walk.leave().0;
            let node = walk.node();
            if walk.job.recursive {
                &&& next.pending.len() == walk.children.len() + walk.pending.len() - 1
                &&& forall|i: int|
                    0 <= i < walk.children.len() ==> {
                        &&& (#[trigger] next.pending[i]).source == walk.children[i]
                        &&& next.pending[i].target == node.target + seq!['/'] + basename_of(
                            node.source,
                        )
                    }
                &&& forall|i: int|
                    0 <= i < walk.pending.len() - 1 ==> next.pending[walk.children.len() + i]
                        == #[trigger] walk.pending[i + 1]
            } else {
                next.pending == walk.pending.drop_first()
            }
        }),
        walk.leave().0.reports == walk.reports,
        walk.leave().0.phase is Encryption || walk.leave().0.phase is Finished,
{
}

/// What follows the end of a visit: the encryption query for the next
/// pending dataset, or nothing.
pub open spec fn next_visit(walk: WalkerView) -> ActionView {
    if walk.pending.len() == 0 {
        ActionView::Stop
    } else {
        ActionView::Run(encryption_argv(walk.job.source_host, walk.pending[0].source))
    }
}

/// A dataset that the planner does not want transferred gets no transfer
/// and no hold or release: the visit ends with the decision, and the next
/// action is the first query for the next dataset, or the end of the walk.
pub proof fn lemma_nothing_done_without_plan(walk: WalkerView, exists: bool)
    requires
        walk.pending.len() > 0,
        plan_state_of(walk.previous, walk.current, exists) is NoOp || plan_state_of(
            walk.previous,
            walk.current,
            exists,
        ) is UnsafeBlocked || plan_state_of(walk.previous, walk.current, exists) is Skipped,
    ensures
        ({
            let state = plan_state_of(walk.previous, walk.current, exists);
            let (next, action) = walk.decide(exists);
            &&& action == next_visit(next)
            &&& !(action is Pipe)
            &&& next.pins.len() == 0
            &&& next.plan is None
            &&& next.phase is Encryption || next.phase is Finished
            &&& next.reports == walk.reports.push(
                ReportView {
                    source: walk.node().source,
                    target: walk.landing(),
                    state,
                    outcome: None,
                },
            )
        }),
{
}

/// Every transfer attempt, whatever came of it, is followed by the pins
/// for its plan: the step that takes its verdict asks for the first of
/// them, the hold of the snapshot just sent on the source, and queues the
/// rest.
pub proof fn lemma_pins_follow_transfer(walk: WalkerView, event: Event)
    requires
        walk.pending.len() > 0,
        walk.phase is Transfer,
        walk.plan is Some,
    ensures
        ({
            let plan = walk.plan.unwrap();
            let pins = guard_argvs(
                walk.job.source_host,
                walk.job.target_host,
                walk.node().target,
                plan,
            );
            let (next, action) = walk.step(event);
            &&& action == ActionView::Run(pins[0])
            &&& next.phase is Guard
            &&& next.pins == pins.drop_first()
            &&& next.pending == walk.pending
            &&& next.reports == walk.reports.push(
                ReportView {
                    source: walk.node().source,
                    target: walk.landing(),
                    state: WalkerView::state_of(plan),
                    outcome: Some(outcome_of(piped_in(event))),
                },
            )
        }),
{
}

/// In the guard phase the queued pins are asked for one by one, in order,
/// whatever came of the one before; after the last the visit ends.
pub proof fn lemma_pins_in_order(walk: WalkerView, event: Event)
    requires
        walk.pending.len() > 0,
        walk.phase is Guard,
    ensures
        walk.pins.len() > 0 ==> walk.step(event) == (
            WalkerView { pins: walk.pins.drop_first(), ..walk },
            ActionView::Run(walk.pins[0]),
        ),
        walk.pins.len() == 0 ==> walk.step(event) == walk.leave() && walk.step(event).1
            == next_visit(walk.step(event).0),
{
}

/// A login test that fails ends the job before any dataset was looked at,
/// and names the host.
pub proof fn lemma_unreachable_host_ends_job(walk: WalkerView, event: Event)
    requires
        walk.well_formed(),
        walk.phase is SourceLogin || walk.phase is TargetLogin,
        !login_ok(ran_in(event)),
    ensures
        ({
            let (next, action) = walk.step(event);
            &&& action is Stop
            &&& next.phase is Finished
            &&& next.reports.len() == 0
            &&& next.unreachable == Some(
                if walk.phase is SourceLogin {
                    walk.job.source_host
                } else {
                    walk.job.target_host
                },
            )
        }),
{
}

/// Once a walk is over it stays over: every further step asks for nothing
/// and changes nothing in what was reported.
pub proof fn lemma_finished_stays_finished(walk: WalkerView, event: Event)
    requires
        walk.phase is Finished,
    ensures
        walk.step(event).1 is Stop,
        walk.step(event).0.phase is Finished,
        walk.step(event).0.reports == walk.reports,
        walk.step(event).0.unreachable == walk.unreachable,
{
}

/// The command lines `pins` as actions.
pub open spec fn as_runs(pins: Seq<Seq<Seq<char>>>) -> Seq<ActionView> {
    pins.map_values(|argv: Seq<Seq<char>>| ActionView::Run(argv))
}

/// In the guard phase, as many steps as there are pins queued, or fewer,
/// ask for those pins in order and change nothing else.
pub proof fn lemma_guard_run(walk: WalkerView, events: Seq<Event>)
    requires
        walk.pending.len() > 0,
        walk.phase is Guard,
        events.len() <= walk.pins.len(),
    ensures
        walk.run(events).1 == as_runs(walk.pins.take(events.len() as int)),
        walk.run(events).0 == (WalkerView { pins: walk.pins.skip(events.len() as int), ..walk }),
    decreases events.len(),
{
    if events.len() == 0 {
        assert(walk.pins.skip(0) =~= walk.pins);
        assert(walk.run(events).0 =~= (WalkerView { pins: walk.pins.skip(0), ..walk }));
        assert(walk.run(events).1 =~= as_runs(walk.pins.take(0)));
    } else {
        let next = WalkerView { pins: walk.pins.drop_first(), ..walk };
        let rest = events.drop_first();
        lemma_guard_run(next, rest);
        assert(next.pins.skip(rest.len() as int) =~= walk.pins.skip(events.len() as int));
        assert(seq![ActionView::Run(walk.pins[0])] + as_runs(next.pins.take(rest.len() as int))
            =~= as_runs(walk.pins.take(events.len() as int)));
    }
}

/// After any transfer attempt, with success or with failure, the next
/// actions are exactly the pins for its plan, in order: the hold of the
/// snapshot just sent on the source and on the target, then, where the
/// transfer had a base and only there, the release of the base on the
/// source and on the target. Then the visit ends.
pub proof fn lemma_guard_after_transfer(walk: WalkerView, events: Seq<Event>)
    requires
        walk.pending.len() > 0,
        walk.phase is Transfer,
        walk.plan is Some,
        events.len() == guard_argvs(
            walk.job.source_host,
            walk.job.target_host,
            walk.node().target,
            walk.plan.unwrap(),
        ).len(),
    ensures
        walk.run(events).1 == as_runs(
            guard_argvs(
                walk.job.source_host,
                walk.job.target_host,
                walk.node().target,
                walk.plan.unwrap(),
            ),
        ),
        walk.run(events).0.phase is Guard,
        walk.run(events).0.pins.len() == 0,
        forall|event: Event| #[trigger]
            walk.run(events).0.step(event) == walk.run(events).0.leave(),
{
    let pins = guard_argvs(
        walk.job.source_host,
        walk.job.target_host,
        walk.node().target,
        walk.plan.unwrap(),
    );
    let (next, action) = walk.step(events[0]);
    lemma_pins_follow_transfer(walk, events[0]);
    let rest = events.drop_first();
    lemma_guard_run(next, rest);
    assert(next.pins.take(rest.len() as int) =~= pins.drop_first());
    assert(seq![action] + as_runs(pins.drop_first()) =~= as_runs(pins));
    assert(next.pins.skip(rest.len() as int).len() == 0);
}

} // verus!
