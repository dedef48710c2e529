use activity_bot::orchestrator::{Command, Event, Run, RunOutcome, Stage, Step};
use activity_bot::schedule::{Decision, Gate};
use rand::rngs::StdRng;
use rand::SeedableRng;

const NOW: u64 = 1700000000;

fn start(min_files: usize, max_files: usize) -> (Run, StdRng, Command) {
    let mut run = Run::new(NOW, min_files, max_files).unwrap();
    let mut rng = StdRng::seed_from_u64(11);
    let first = run.advance(Event::Done, &mut rng);
    (run, rng, first)
}

fn cands(n: usize) -> Vec<String> {
    (0..n).map(|i| format!("src/f{}.rs", i)).collect()
}

/// Answers every command as a healthy repository would; `fail_on` names a
/// command kind to fail instead. Returns every command issued.
fn drive(run: &mut Run, rng: &mut StdRng, first: Command, files: usize, fail_on: &str) -> Vec<Command> {
    let mut seen = vec![first.clone()];
    let mut cmd = first;
    let mut seeded = false;
    for _ in 0..100 {
        let kind = format!("{:?}", cmd);
        if let Command::Finish { .. } = cmd {
            break;
        }
        let ev = if !fail_on.is_empty() && kind.starts_with(fail_on) {
            Event::Failed { cause: "boom".to_string() }
        } else {
            match &cmd {
                Command::ScanCandidates => Event::Candidates {
                    paths: if files == 0 && !seeded { vec![] } else if files == 0 { cands(2) } else { cands(files) },
                },
                Command::SeedDefaults => {
                    seeded = true;
                    Event::Done
                }
                Command::OpenRequest { .. } => Event::Opened { number: 7 },
                _ => Event::Done,
            }
        };
        cmd = run.advance(ev, rng);
        seen.push(cmd.clone());
    }
    seen
}

#[test]
fn empty_repository_is_seeded_then_merged_and_cleaned() {
    let (mut run, mut rng, first) = start(1, 1);
    assert_eq!(first, Command::Checkout { branch: "main".to_string() });
    let seen = drive(&mut run, &mut rng, first, 0, "");
    assert!(seen.contains(&Command::SeedDefaults));
    assert!(seen.contains(&Command::Commit { message: "Add initial files".to_string() }));
    let seed_push = seen.iter().position(|c| *c == Command::PushHead { target: "main".to_string() });
    let seed_commit = seen
        .iter()
        .position(|c| *c == Command::Commit { message: "Add initial files".to_string() });
    assert!(seed_push.unwrap() == seed_commit.unwrap() + 1);
    assert!(seen.contains(&Command::Merge { number: 7, title: "Merged bot update PR #7".to_string() }));
    let branch = "bot-update-1700000000".to_string();
    assert!(seen.contains(&Command::DeleteLocalBranch { name: branch.clone() }));
    assert!(seen.contains(&Command::DeleteRemoteBranch { name: branch }));
    assert_eq!(seen.last(), Some(&Command::Finish { outcome: RunOutcome::Success }));
    assert_eq!(run.step, Step::Finished);
}

#[test]
fn ten_files_touch_between_two_and_five() {
    let (mut run, mut rng, first) = start(2, 5);
    let seen = drive(&mut run, &mut rng, first, 10, "");
    let paths = seen
        .iter()
        .find_map(|c| if let Command::MutateFiles { paths } = c { Some(paths.clone()) } else { None })
        .unwrap();
    let n = paths.len();
    assert!((2..=5).contains(&n));
    let commits: Vec<&Command> = seen.iter().filter(|c| matches!(c, Command::Commit { .. })).collect();
    assert_eq!(commits, vec![&Command::Commit { message: format!("Update {} files", n) }]);
    let opens: Vec<&Command> = seen.iter().filter(|c| matches!(c, Command::OpenRequest { .. })).collect();
    assert_eq!(opens.len(), 1);
    if let Command::OpenRequest { title, head, base, .. } = opens[0] {
        assert_eq!(base, "main");
        assert_eq!(head, "bot-update-1700000000");
        assert_eq!(title, "Bot update 2023-11-14 22:13:20");
    }
    assert!(seen.iter().any(|c| matches!(c, Command::Wait { seconds } if (60..180).contains(seconds))));
    assert!(seen.contains(&Command::Wait { seconds: 30 }));
}

#[test]
fn push_failure_stops_before_request() {
    let (mut run, mut rng, first) = start(1, 2);
    let seen = drive(&mut run, &mut rng, first, 3, "Push");
    assert!(!seen.iter().any(|c| matches!(c, Command::OpenRequest { .. })));
    let fin = Command::Finish {
        outcome: RunOutcome::FailedAtStage { stage: Stage::Pushing, cause: "boom".to_string() },
    };
    assert_eq!(seen.last(), Some(&fin));
    assert_eq!(run.advance(Event::Done, &mut rng), fin);
}

#[test]
fn failure_at_each_stage_is_reported_there() {
    let cases = [
        ("Pull", Stage::Branching),
        ("CreateBranch", Stage::Branching),
        ("ScanCandidates", Stage::Mutating),
        ("MutateFiles", Stage::Mutating),
        ("AddAll", Stage::Committing),
        ("Commit", Stage::Committing),
        ("OpenRequest", Stage::Requesting),
        ("Wait", Stage::Waiting),
        ("Merge", Stage::Merging),
        ("DeleteLocalBranch", Stage::CleaningUp),
        ("DeleteRemoteBranch", Stage::CleaningUp),
    ];
    for (kind, stage) in cases {
        let (mut run, mut rng, first) = start(1, 2);
        let seen = drive(&mut run, &mut rng, first, 3, kind);
        let fin = Command::Finish {
            outcome: RunOutcome::FailedAtStage { stage, cause: "boom".to_string() },
        };
        assert_eq!(seen.last(), Some(&fin), "{}", kind);
        let failed_at = seen.iter().position(|c| format!("{:?}", c).starts_with(kind)).unwrap();
        assert_eq!(failed_at + 2, seen.len(), "{}", kind);
    }
}

#[test]
fn master_is_used_when_main_is_missing_and_neither_fails() {
    let (mut run, mut rng, first) = start(1, 1);
    assert_eq!(first, Command::Checkout { branch: "main".to_string() });
    let c = run.advance(Event::Failed { cause: "no main".to_string() }, &mut rng);
    assert_eq!(c, Command::Checkout { branch: "master".to_string() });
    let c = run.advance(Event::Done, &mut rng);
    assert_eq!(c, Command::Pull { branch: "master".to_string() });

    let (mut run, mut rng, _) = start(1, 1);
    run.advance(Event::Failed { cause: "no main".to_string() }, &mut rng);
    let c = run.advance(Event::Failed { cause: "no master".to_string() }, &mut rng);
    assert_eq!(
        c,
        Command::Finish {
            outcome: RunOutcome::FailedAtStage { stage: Stage::Branching, cause: "no master".to_string() }
        }
    );
}

#[test]
fn seeding_that_leaves_no_candidates_fails_mutating() {
    let (mut run, mut rng, _) = start(1, 1);
    for ev in [Event::Done, Event::Done, Event::Done] {
        run.advance(ev, &mut rng);
    }
    assert_eq!(run.advance(Event::Candidates { paths: vec![] }, &mut rng), Command::SeedDefaults);
    for _ in 0..4 {
        run.advance(Event::Done, &mut rng);
    }
    assert_eq!(run.step, Step::Rescan);
    let c = run.advance(Event::Candidates { paths: vec![] }, &mut rng);
    assert_eq!(
        c,
        Command::Finish {
            outcome: RunOutcome::FailedAtStage {
                stage: Stage::Mutating,
                cause: "no candidate files after seeding".to_string()
            }
        }
    );
}

#[test]
fn request_without_handle_fails_requesting() {
    let (mut run, mut rng, first) = start(1, 1);
    let _ = first;
    let mut cmd = run.advance(Event::Done, &mut rng);
    while !matches!(cmd, Command::OpenRequest { .. }) {
        let ev = if matches!(cmd, Command::ScanCandidates) {
            Event::Candidates { paths: cands(1) }
        } else {
            Event::Done
        };
        cmd = run.advance(ev, &mut rng);
    }
    let c = run.advance(Event::Done, &mut rng);
    assert_eq!(
        c,
        Command::Finish {
            outcome: RunOutcome::FailedAtStage { stage: Stage::Requesting, cause: "unexpected answer".to_string() }
        }
    );
}

#[test]
fn run_rejects_times_past_year_9999() {
    assert!(Run::new(253402300800, 1, 1).is_none());
    assert!(Run::new(253402300799, 1, 1).is_some());
}

#[test]
fn trigger_during_active_run_is_dropped() {
    let mut g = Gate::new();
    assert_eq!(g.trigger(), Decision::Start);
    assert_eq!(g.trigger(), Decision::Drop);
    assert_eq!(g.trigger(), Decision::Drop);
    assert!(g.active);
    assert_eq!(g.dropped, 2);
    g.finish();
    assert!(!g.active);
    assert_eq!(g.trigger(), Decision::Start);
    assert_eq!(g.dropped, 2);
}
