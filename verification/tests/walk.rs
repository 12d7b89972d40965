use piper::command::Capture;
use piper::dataset::DatasetRef;
use piper::job::JobSpec;
use piper::plan::PlanState;
use piper::transfer::{PipeReport, TransferOutcome};
use piper::walk::{nodes_below, piped_of, ran_of, Action, Event, Node, Phase, Walker};

fn words(line: &str) -> Vec<String> {
    line.split(' ').map(String::from).collect()
}

fn job(source: &str, target: &str, recursive: bool, prefix: &str) -> JobSpec {
    JobSpec {
        source: DatasetRef::parse(source),
        target: DatasetRef::parse(target),
        recursive,
        canmount: false,
        inherit_encryption: false,
        prefix: String::from(prefix),
    }
}

fn printed(text: &str) -> Event {
    Event::Ran(Some(Capture {
        success: true,
        stdout: Some(String::from(text)),
        stderr: Some(String::new()),
    }))
}

fn failed() -> Event {
    Event::Ran(Some(Capture {
        success: false,
        stdout: Some(String::new()),
        stderr: Some(String::from("no such thing\n")),
    }))
}

fn piped(sent: bool, received: bool) -> Event {
    Event::Piped(PipeReport { started: true, sent: Some(sent), received: Some(received), drained: true })
}

fn run(action: &Action) -> Vec<String> {
    match action {
        Action::Run(argv) => argv.clone(),
        other => panic!("expected a command, got {:?}", other),
    }
}

/// Feeds `events` in turn and returns every action, the first included.
fn drive(job: JobSpec, events: Vec<Event>) -> (Walker, Vec<Action>) {
    let (mut walker, first) = Walker::start(job, false, false);
    let mut actions = vec![first];
    for event in events {
        let (next, action) = walker.step(event);
        walker = next;
        actions.push(action);
    }
    (walker, actions)
}

#[test]
fn event_payloads() {
    assert_eq!(ran_of(printed("x")), Some(Capture {
        success: true,
        stdout: Some(String::from("x")),
        stderr: Some(String::new()),
    }));
    assert_eq!(ran_of(piped(true, true)), None);
    assert_eq!(
        piped_of(piped(true, false)),
        PipeReport { started: true, sent: Some(true), received: Some(false), drained: true }
    );
    assert_eq!(
        piped_of(printed("x")),
        PipeReport { started: false, sent: None, received: None, drained: false }
    );
}

#[test]
fn nodes_below_take_the_parents_landing_as_target() {
    let parent = Node { source: String::from("tank/data"), target: String::from("vault") };
    let children = vec![String::from("tank/data/a"), String::from("tank/data/b")];
    let below = nodes_below(&parent, &children);
    assert_eq!(
        below,
        vec![
            Node { source: String::from("tank/data/a"), target: String::from("vault/data") },
            Node { source: String::from("tank/data/b"), target: String::from("vault/data") },
        ]
    );
    assert_eq!(nodes_below(&parent, &Vec::new()), Vec::<Node>::new());
}

#[test]
fn local_job_starts_with_the_encryption_query() {
    let (walker, first) = Walker::start(job("tank/data", "vault", false, ""), false, false);
    assert_eq!(run(&first), words("zfs list -H -t filesystem,volume -o encryption tank/data"));
    assert_eq!(walker.phase(), Phase::Encryption);
    assert!(!walker.is_finished());
    assert_eq!(walker.pending().len(), 1);
    assert_eq!(walker.reports().len(), 0);
}

#[test]
fn remote_hosts_are_tested_before_any_dataset_work() {
    let (walker, actions) = drive(job("src:tank/data", "dst:vault", false, ""), vec![printed(""), printed("")]);
    assert_eq!(run(&actions[0]), words("ssh src exit"));
    assert_eq!(run(&actions[1]), words("ssh dst exit"));
    assert_eq!(
        run(&actions[2]),
        words("ssh src zfs list -H -t filesystem,volume -o encryption tank/data")
    );
    assert_eq!(walker.unreachable_host(), None);
}

#[test]
fn unreachable_source_ends_the_job() {
    let (walker, actions) = drive(job("src:tank/data", "dst:vault", false, ""), vec![failed()]);
    assert_eq!(actions[1], Action::Stop);
    assert!(walker.is_finished());
    assert_eq!(walker.unreachable_host(), Some(String::from("src")));
    assert_eq!(walker.reports().len(), 0);
    let (walker, again) = walker.step(printed(""));
    assert_eq!(again, Action::Stop);
    assert!(walker.is_finished());
}

#[test]
fn unreachable_target_ends_the_job() {
    let (walker, actions) =
        drive(job("src:tank/data", "dst:vault", false, ""), vec![printed(""), Event::Ran(None)]);
    assert_eq!(actions[2], Action::Stop);
    assert_eq!(walker.unreachable_host(), Some(String::from("dst")));
}

#[test]
fn full_replication() {
    let (walker, actions) = drive(
        job("tank/data", "vault", false, ""),
        vec![
            printed("off\n"),
            printed("tank/data@B\ntank/data@A\n"),
            failed(),
            printed("tank/data\n"),
            failed(),
            piped(true, true),
            printed(""),
            printed(""),
        ],
    );
    assert_eq!(run(&actions[1]), words("zfs list -H -t snapshot -o name -S createtxg tank/data"));
    assert_eq!(run(&actions[2]), words("zfs list -H -t snapshot -o name -S createtxg vault/data"));
    assert_eq!(
        run(&actions[3]),
        words("zfs list -H -d 1 -t filesystem,volume -o name -s createtxg tank/data")
    );
    assert_eq!(
        run(&actions[4]),
        words("zfs list -H -t filesystem,volume -o name -S createtxg vault/data")
    );
    match &actions[5] {
        Action::Pipe(pair) => {
            assert_eq!(pair.producer, words("zfs send -R -s tank/data@B"));
            assert_eq!(pair.consumer, words("zfs recv -v -e -o canmount=off -F -u vault"));
        }
        other => panic!("expected a transfer, got {:?}", other),
    }
    assert_eq!(run(&actions[6]), words("zfs hold piper tank/data@B"));
    assert_eq!(run(&actions[7]), words("zfs hold piper vault/data@B"));
    assert_eq!(actions[8], Action::Stop);
    assert_eq!(actions.len(), 9);
    assert!(walker.is_finished());
    let reports = walker.reports();
    assert_eq!(reports.len(), 1);
    assert_eq!(reports[0].source, "tank/data");
    assert_eq!(reports[0].target, "vault/data");
    assert_eq!(reports[0].state, PlanState::Full);
    assert_eq!(reports[0].outcome, Some(TransferOutcome::Succeeded));
}

#[test]
fn incremental_replication() {
    let (walker, actions) = drive(
        job("tank/data", "vault", false, ""),
        vec![
            printed("aes-256-gcm\n"),
            printed("tank/data@B\ntank/data@A\n"),
            printed("vault/data@A\n"),
            printed("tank/data\n"),
            piped(true, true),
            printed(""),
            printed(""),
            printed(""),
            printed(""),
        ],
    );
    match &actions[4] {
        Action::Pipe(pair) => {
            assert_eq!(pair.producer, words("zfs send -w -R -s -i tank/data@A tank/data@B"));
            assert_eq!(pair.consumer, words("zfs recv -v -e -o canmount=off -F -u vault"));
        }
        other => panic!("expected a transfer, got {:?}", other),
    }
    assert_eq!(run(&actions[5]), words("zfs hold piper tank/data@B"));
    assert_eq!(run(&actions[6]), words("zfs hold piper vault/data@B"));
    assert_eq!(run(&actions[7]), words("zfs release piper tank/data@A"));
    assert_eq!(run(&actions[8]), words("zfs release piper vault/data@A"));
    assert_eq!(actions[9], Action::Stop);
    assert_eq!(walker.reports()[0].state, PlanState::Incremental);
}

#[test]
fn no_op_issues_nothing() {
    let (walker, actions) = drive(
        job("tank/data", "vault", false, ""),
        vec![printed("off\n"), printed("tank/data@B\n"), printed("vault/data@B\n"), printed("tank/data\n")],
    );
    assert_eq!(actions[4], Action::Stop);
    assert_eq!(actions.len(), 5);
    let reports = walker.reports();
    assert_eq!(reports[0].state, PlanState::NoOp);
    assert_eq!(reports[0].outcome, None);
}

#[test]
fn prefix_picks_the_matching_snapshot() {
    let (_, actions) = drive(
        job("tank/data", "vault", false, "HOURLY__"),
        vec![
            printed("off\n"),
            printed("tank/data@C\ntank/data@HOURLY__B\n"),
            failed(),
            printed("tank/data\n"),
            failed(),
        ],
    );
    match &actions[5] {
        Action::Pipe(pair) => assert_eq!(pair.producer, words("zfs send -R -s tank/data@HOURLY__B")),
        other => panic!("expected a transfer, got {:?}", other),
    }
}

#[test]
fn unsafe_target_blocks_the_transfer() {
    let (walker, actions) = drive(
        job("tank/data", "vault", false, ""),
        vec![
            printed("off\n"),
            printed("tank/data@B\n"),
            printed(""),
            printed("tank/data\n"),
            printed("vault/data\n"),
        ],
    );
    assert_eq!(actions[5], Action::Stop);
    for action in &actions {
        assert!(!matches!(action, Action::Pipe(_)));
    }
    let reports = walker.reports();
    assert_eq!(reports[0].state, PlanState::UnsafeBlocked);
    assert_eq!(reports[0].outcome, None);
}

#[test]
fn no_snapshot_skips_the_dataset_without_asking_about_the_target() {
    let (walker, actions) = drive(
        job("tank/data", "vault", false, "DAILY__"),
        vec![printed("off\n"), printed("tank/data@B\n"), printed(""), printed("tank/data\n")],
    );
    assert_eq!(actions[4], Action::Stop);
    assert_eq!(walker.reports()[0].state, PlanState::Skipped);
}

#[test]
fn failed_send_is_still_followed_by_the_pins() {
    let (walker, actions) = drive(
        job("tank/data", "vault", false, ""),
        vec![
            printed("off\n"),
            printed("tank/data@B\n"),
            printed("vault/data@A\n"),
            printed("tank/data\n"),
            piped(false, true),
            failed(),
            failed(),
            failed(),
            failed(),
        ],
    );
    assert_eq!(run(&actions[5]), words("zfs hold piper tank/data@B"));
    assert_eq!(run(&actions[8]), words("zfs release piper vault/data@A"));
    assert_eq!(actions[9], Action::Stop);
    assert_eq!(walker.reports()[0].outcome, Some(TransferOutcome::SendFailed));
}

#[test]
fn transfer_that_could_not_be_started_is_still_followed_by_the_pins() {
    let (walker, actions) = drive(
        job("tank/data", "vault", false, ""),
        vec![
            printed("off\n"),
            printed("tank/data@B\n"),
            printed("vault/data@A\n"),
            printed("tank/data\n"),
            Event::Piped(PipeReport { started: false, sent: None, received: None, drained: false }),
            printed(""),
            printed(""),
            printed(""),
            printed(""),
        ],
    );
    assert_eq!(run(&actions[5]), words("zfs hold piper tank/data@B"));
    assert_eq!(run(&actions[6]), words("zfs hold piper vault/data@B"));
    assert_eq!(run(&actions[7]), words("zfs release piper tank/data@A"));
    assert_eq!(run(&actions[8]), words("zfs release piper vault/data@A"));
    assert_eq!(actions[9], Action::Stop);
    assert_eq!(walker.reports()[0].outcome, Some(TransferOutcome::Aborted));
}

#[test]
fn transfer_with_unread_output_is_still_followed_by_the_pins() {
    let (walker, actions) = drive(
        job("tank/data", "vault", false, ""),
        vec![
            printed("off\n"),
            printed("tank/data@B\n"),
            failed(),
            printed("tank/data\n"),
            failed(),
            Event::Piped(PipeReport {
                started: true,
                sent: Some(true),
                received: Some(true),
                drained: false,
            }),
            printed(""),
            printed(""),
        ],
    );
    assert_eq!(run(&actions[6]), words("zfs hold piper tank/data@B"));
    assert_eq!(run(&actions[7]), words("zfs hold piper vault/data@B"));
    assert_eq!(actions[8], Action::Stop);
    assert_eq!(walker.reports()[0].outcome, Some(TransferOutcome::SucceededUnread));
}

#[test]
fn report_of_the_wrong_kind_counts_as_a_transfer_that_could_not_be_started() {
    let (walker, actions) = drive(
        job("tank/data", "vault", false, ""),
        vec![
            printed("off\n"),
            printed("tank/data@B\n"),
            failed(),
            printed("tank/data\n"),
            failed(),
            printed(""),
        ],
    );
    assert_eq!(run(&actions[6]), words("zfs hold piper tank/data@B"));
    assert_eq!(walker.reports()[0].outcome, Some(TransferOutcome::Aborted));
}

#[test]
fn source_without_slash_lands_below_the_target_under_its_own_name() {
    let (walker, actions) = drive(
        job("pool", "tank/bk", true, ""),
        vec![
            // pool: snapshot B, never replicated, one child
            printed("off\n"),
            printed("pool@B\n"),
            failed(),
            printed("pool\npool/a\n"),
            failed(),
            piped(true, true),
            printed(""),
            printed(""),
            // pool/a
            printed("off\n"),
            printed("pool/a@B\n"),
        ],
    );
    assert_eq!(run(&actions[2]), words("zfs list -H -t snapshot -o name -S createtxg tank/bk/pool"));
    assert_eq!(
        run(&actions[4]),
        words("zfs list -H -t filesystem,volume -o name -S createtxg tank/bk/pool")
    );
    match &actions[5] {
        Action::Pipe(pair) => {
            assert_eq!(pair.producer, words("zfs send -R -s -X pool/a pool@B"));
            assert_eq!(pair.consumer, words("zfs recv -v -e -o canmount=off -F -u tank/bk"));
        }
        other => panic!("expected a transfer, got {:?}", other),
    }
    assert_eq!(run(&actions[6]), words("zfs hold piper pool@B"));
    assert_eq!(run(&actions[7]), words("zfs hold piper tank/bk/pool@B"));
    assert_eq!(
        run(&actions[8]),
        words("zfs list -H -t filesystem,volume -o encryption pool/a")
    );
    assert_eq!(
        run(&actions[10]),
        words("zfs list -H -t snapshot -o name -S createtxg tank/bk/pool/a")
    );
    let pending = walker.pending();
    assert_eq!(pending.len(), 1);
    assert_eq!(pending[0].source, "pool/a");
    assert_eq!(pending[0].target, "tank/bk/pool");
    assert_eq!(walker.reports()[0].target, "tank/bk/pool");
}

#[test]
fn recursive_job_visits_both_children_after_the_parent() {
    let (walker, actions) = drive(
        job("tank/data", "vault", true, ""),
        vec![
            // tank/data
            printed("off\n"),
            printed("tank/data@B\n"),
            failed(),
            printed("tank/data\ntank/data/a\ntank/data/b\n"),
            failed(),
            piped(true, true),
            printed(""),
            printed(""),
            // tank/data/a
            printed("off\n"),
            printed("tank/data/a@B\n"),
            printed("vault/data/a@B\n"),
            printed("tank/data/a\n"),
            // tank/data/b
            printed("off\n"),
            printed("tank/data/b@B\n"),
            printed("vault/data/b@A\n"),
            printed("tank/data/b\n"),
        ],
    );
    match &actions[5] {
        Action::Pipe(pair) => {
            assert_eq!(
                pair.producer,
                words("zfs send -R -s -X tank/data/a -X tank/data/b tank/data@B")
            );
            assert_eq!(pair.consumer, words("zfs recv -v -e -o canmount=off -F -u vault"));
        }
        other => panic!("expected a transfer, got {:?}", other),
    }
    assert_eq!(
        run(&actions[8]),
        words("zfs list -H -t filesystem,volume -o encryption tank/data/a")
    );
    assert_eq!(
        run(&actions[10]),
        words("zfs list -H -t snapshot -o name -S createtxg vault/data/a")
    );
    assert_eq!(
        run(&actions[12]),
        words("zfs list -H -t filesystem,volume -o encryption tank/data/b")
    );
    assert_eq!(
        run(&actions[14]),
        words("zfs list -H -t snapshot -o name -S createtxg vault/data/b")
    );
    match &actions[16] {
        Action::Pipe(pair) => {
            assert_eq!(pair.producer, words("zfs send -R -s -i tank/data/b@A tank/data/b@B"));
            assert_eq!(pair.consumer, words("zfs recv -v -e -o canmount=off -F -u vault/data"));
        }
        other => panic!("expected a transfer, got {:?}", other),
    }
    let reports = walker.reports();
    assert_eq!(reports.len(), 2);
    assert_eq!(reports[0].source, "tank/data");
    assert_eq!(reports[1].source, "tank/data/a");
    assert_eq!(reports[1].target, "vault/data/a");
    assert_eq!(reports[1].state, PlanState::NoOp);
    let pending = walker.pending();
    assert_eq!(pending.len(), 1);
    assert_eq!(pending[0].source, "tank/data/b");
    assert_eq!(pending[0].target, "vault/data");
}

#[test]
fn walk_is_depth_first() {
    let (walker, _) = drive(
        job("p", "t", true, ""),
        vec![
            // p: no snapshot, children a and b
            printed("off\n"),
            printed(""),
            printed(""),
            printed("p\np/a\np/b\n"),
            // p/a: no snapshot, child p/a/x
            printed("off\n"),
            printed(""),
            printed(""),
            printed("p/a\np/a/x\n"),
        ],
    );
    let pending = walker.pending();
    assert_eq!(pending.len(), 2);
    assert_eq!(pending[0].source, "p/a/x");
    assert_eq!(pending[0].target, "t/p/a");
    assert_eq!(pending[1].source, "p/b");
    assert_eq!(pending[1].target, "t/p");
}

#[test]
fn children_of_a_job_that_is_not_recursive_are_left_out_and_not_visited() {
    let (walker, actions) = drive(
        job("tank/data", "vault", false, ""),
        vec![
            printed("off\n"),
            printed("tank/data@B\n"),
            failed(),
            printed("tank/data\ntank/data/a\n"),
            failed(),
            piped(true, false),
            printed(""),
            printed(""),
        ],
    );
    match &actions[5] {
        Action::Pipe(pair) => {
            assert_eq!(pair.producer, words("zfs send -R -s -X tank/data/a tank/data@B"))
        }
        other => panic!("expected a transfer, got {:?}", other),
    }
    assert_eq!(actions[8], Action::Stop);
    assert_eq!(walker.pending().len(), 0);
    assert_eq!(walker.reports()[0].outcome, Some(TransferOutcome::ReceiveFailed));
}

#[test]
fn dry_runs_reach_the_transfer() {
    let (mut walker, _) = Walker::start(job("tank/data", "vault", false, ""), true, false);
    let mut last = Action::Stop;
    for event in [printed("off\n"), printed("tank/data@B\n"), failed(), printed("tank/data\n"), failed()] {
        let (next, action) = walker.step(event);
        walker = next;
        last = action;
    }
    match last {
        Action::Pipe(pair) => {
            assert_eq!(pair.producer, words("zfs send -n -R -s tank/data@B"));
            assert_eq!(pair.consumer, words("zfs recv -n -v -e -o canmount=off -F -u vault"));
        }
        other => panic!("expected a transfer, got {:?}", other),
    }
}
