use vstd::prelude::*;
use crate::mutate::printable;
use crate::select::{distinct_views, min_nat, no_duplicates, select_targets, string_views};
use crate::text::{
    ascii_chars, branch_name, commit_message, commit_text, decimal, format_stamp, merge_text,
    merge_title, request_body, request_title, LAST_STAMP_SECS,
};

verus! {

/// The stages of one run, in the order they execute.
#[derive(Debug, Clone, Copy, PartialEq, Eq, Structural)]
pub enum Stage {
    Branching,
    Mutating,
    Committing,
    Pushing,
    Requesting,
    Waiting,
    Merging,
    CleaningUp,
}

/// Position of a stage in the run.
pub open spec fn stage_rank(s: Stage) -> nat {
    match s {
        Stage::Branching => 0,
        Stage::Mutating => 1,
        Stage::Committing => 2,
        Stage::Pushing => 3,
        Stage::Requesting => 4,
        Stage::Waiting => 5,
        Stage::Merging => 6,
        Stage::CleaningUp => 7,
    }
}

/// How a run ended.
#[derive(Debug, Clone, PartialEq, Eq)]
pub enum RunOutcome {
    Success,
    FailedAtStage { stage: Stage, cause: String },
}

/// What the run asks its collaborators to do next.
#[derive(Debug, Clone, PartialEq, Eq)]
pub enum Command {
    /// Switch the working copy to `branch`.
    Checkout { branch: String },
    /// Bring `branch` up to date from its remote counterpart.
    Pull { branch: String },
    /// Create `name` and switch to it.
    CreateBranch { name: String },
    /// List the candidate files; answered with `Event::Candidates`.
    ScanCandidates,
    /// Write the default seed files into the working copy.
    SeedDefaults,
    /// Touch each of these files with the mutation engine.
    MutateFiles { paths: Vec<String> },
    /// Stage every working-tree change.
    AddAll,
    /// Record a commit with `message`.
    Commit { message: String },
    /// Publish `branch`, establishing tracking when `set_upstream`.
    Push { branch: String, set_upstream: bool },
    /// Publish the current commit to the remote branch `target`.
    PushHead { target: String },
    /// Open a change request; answered with `Event::Opened`.
    OpenRequest { title: String, head: String, base: String, body: String },
    /// Sleep for `seconds`.
    Wait { seconds: u64 },
    /// Squash-merge request `number` under `title`.
    Merge { number: u64, title: String },
    /// Delete the local branch `name`.
    DeleteLocalBranch { name: String },
    /// Delete the remote branch `name`.
    DeleteRemoteBranch { name: String },
    /// The run is over.
    Finish { outcome: RunOutcome },
}

/// What came of the last command.
#[derive(Debug, Clone, PartialEq, Eq)]
pub enum Event {
    Done,
    Failed { cause: String },
    Candidates { paths: Vec<String> },
    Opened { number: u64 },
}

/// Where a run stands: the command it has issued and awaits the answer to.
#[derive(Debug, Clone, Copy, PartialEq, Eq, Structural)]
pub enum Step {
    Idle,
    ProbeMain,
    ProbeMaster,
    PullPrimary,
    CreateBranch,
    Scan,
    Seed,
    SeedAdd,
    SeedCommit,
    SeedPush,
    Rescan,
    Mutate,
    Add,
    Commit,
    Push,
    Open,
    Wait,
    Delay,
    Merge,
    Checkout,
    DeleteLocal,
    DeleteRemote,
    Finished,
}

pub open spec fn stage_of(s: Step) -> Stage {
    match s {
        Step::Idle | Step::ProbeMain | Step::ProbeMaster | Step::PullPrimary | Step::CreateBranch => Stage::Branching,
        Step::Scan | Step::Seed | Step::SeedAdd | Step::SeedCommit | Step::SeedPush | Step::Rescan
        | Step::Mutate => Stage::Mutating,
        Step::Add | Step::Commit => Stage::Committing,
        Step::Push => Stage::Pushing,
        Step::Open => Stage::Requesting,
        Step::Wait => Stage::Waiting,
        Step::Delay | Step::Merge => Stage::Merging,
        Step::Checkout | Step::DeleteLocal | Step::DeleteRemote | Step::Finished => Stage::CleaningUp,
    }
}

/// The step a run moves to when `e` answers the command of step `s`; `None`
/// when the answer fails the run at the stage of `s`.
pub open spec fn succ(s: Step, e: Event) -> Option<Step> {
    match (s, e) {
        (Step::Idle, _) => Some(Step::ProbeMain),
        (Step::ProbeMain, Event::Done) => Some(Step::PullPrimary),
        (Step::ProbeMain, Event::Failed { .. }) => Some(Step::ProbeMaster),
        (Step::ProbeMaster, Event::Done) => Some(Step::PullPrimary),
        (Step::PullPrimary, Event::Done) => Some(Step::CreateBranch),
        (Step::CreateBranch, Event::Done) => Some(Step::Scan),
        (Step::Scan, Event::Candidates { paths }) => if paths@.len() == 0 {
            Some(Step::Seed)
        } else {
            Some(Step::Mutate)
        },
        (Step::Seed, Event::Done) => Some(Step::SeedAdd),
        (Step::SeedAdd, Event::Done) => Some(Step::SeedCommit),
        (Step::SeedCommit, Event::Done) => Some(Step::SeedPush),
        (Step::SeedPush, Event::Done) => Some(Step::Rescan),
        (Step::Rescan, Event::Candidates { paths }) => if paths@.len() == 0 {
            None
        } else {
            Some(Step::Mutate)
        },
        (Step::Mutate, Event::Done) => Some(Step::Add),
        (Step::Add, Event::Done) => Some(Step::Commit),
        (Step::Commit, Event::Done) => Some(Step::Push),
        (Step::Push, Event::Done) => Some(Step::Open),
        (Step::Open, Event::Opened { .. }) => Some(Step::Wait),
        (Step::Wait, Event::Done) => Some(Step::Delay),
        (Step::Delay, Event::Done) => Some(Step::Merge),
        (Step::Merge, Event::Done) => Some(Step::Checkout),
        (Step::Checkout, Event::Done) => Some(Step::DeleteLocal),
        (Step::DeleteLocal, Event::Done) => Some(Step::DeleteRemote),
        (Step::DeleteRemote, Event::Done) => Some(Step::Finished),
        _ => None,
    }
}

/// The cause reported when `e`, answering step `s`, fails a run.
pub open spec fn cause_of(s: Step, e: Event) -> Seq<char> {
    match e {
        Event::Failed { cause } => cause@,
        Event::Candidates { .. } => if s == Step::Rescan {
            "no candidate files after seeding"@
        } else {
            "unexpected answer"@
        },
        _ => "unexpected answer"@,
    }
}

/// Seconds of the fixed pause before a merge.
pub const MERGE_DELAY_SECS: u64 = 30;

/// The review wait is drawn from `[WAIT_MIN_SECS, WAIT_MAX_SECS)`.
pub const WAIT_MIN_SECS: u64 = 60;
pub const WAIT_MAX_SECS: u64 = 180;

/// One run of the workflow, driven one command at a time.
pub struct Run {
    pub step: Step,
    pub outcome: Option<RunOutcome>,
    pub branch: String,
    pub primary: String,
    pub stamp: Vec<u8>,
    pub request: u64,
    pub touched: usize,
    pub min_files: usize,
    pub max_files: usize,
}

impl Run {
    pub open spec fn wf(&self) -> bool {
        &&& printable(self.stamp@)
        &&& self.min_files <= self.max_files
        &&& (self.step == Step::Finished <==> self.outcome is Some)
    }

    /// The command that a run at its current step has issued.
    pub open spec fn issued(&self, cmd: Command) -> bool {
        match self.step {
            Step::ProbeMain => cmd matches Command::Checkout { branch } && branch@ == "main"@,
            Step::ProbeMaster => cmd matches Command::Checkout { branch } && branch@ == "master"@,
            Step::PullPrimary => cmd matches Command::Pull { branch } && branch@ == self.primary@,
            Step::CreateBranch => cmd matches Command::CreateBranch { name } && name@ == self.branch@,
            Step::Scan | Step::Rescan => cmd is ScanCandidates,
            Step::Seed => cmd is SeedDefaults,
            Step::SeedAdd | Step::Add => cmd is AddAll,
            Step::SeedCommit => cmd matches Command::Commit { message } && message@ == "Add initial files"@,
            Step::SeedPush => cmd matches Command::PushHead { target } && target@ == self.primary@,
            Step::Push => cmd matches Command::Push { branch, set_upstream } && branch@
                == self.branch@ && set_upstream,
            Step::Mutate => cmd matches Command::MutateFiles { paths } && paths@.len() == self.touched,
            Step::Commit => cmd matches Command::Commit { message } && message@ == commit_text(
                self.touched as nat,
            ),
            Step::Open => cmd matches Command::OpenRequest { title, head, base, body } && title@
                == "Bot update "@ + ascii_chars(self.stamp@) && head@ == self.branch@ && base@
                == self.primary@ && body@
                == "This is an automated PR created by the activity bot. Timestamp: "@
                + ascii_chars(self.stamp@),
            Step::Wait => cmd matches Command::Wait { seconds } && WAIT_MIN_SECS <= seconds
                < WAIT_MAX_SECS,
            Step::Delay => cmd == Command::Wait { seconds: MERGE_DELAY_SECS },
            Step::Merge => cmd matches Command::Merge { number, title } && number == self.request
                && title@ == merge_text(self.request as nat),
            Step::Checkout => cmd matches Command::Checkout { branch } && branch@ == self.primary@,
            Step::DeleteLocal => cmd matches Command::DeleteLocalBranch { name } && name@
                == self.branch@,
            Step::DeleteRemote => cmd matches Command::DeleteRemoteBranch { name } && name@
                == self.branch@,
            Step::Finished => self.outcome matches Some(o) && cmd == Command::Finish { outcome: o },
            Step::Idle => false,
        }
    }

    /// A run that has not started: its branch is named after `now_secs`, and
    /// its request carries the time stamp of `now_secs`. `None` for a time
    /// whose year has more than four digits.
    pub fn new(now_secs: u64, min_files: usize, max_files: usize) -> (r: Option<Run>)
        requires
            min_files <= max_files,
        ensures
            r is Some <==> now_secs <= LAST_STAMP_SECS,
            r matches Some(run) ==> {
                &&& run.wf()
                &&& run.step == Step::Idle
                &&& run.branch@ == "bot-update-"@ + ascii_chars(decimal(now_secs as nat))
                &&& run.stamp@ == crate::text::utc_stamp(now_secs as int)
                &&& run.min_files == min_files && run.max_files == max_files
            },
    {
        if now_secs > LAST_STAMP_SECS as u64 {
            return None;
        }
        match format_stamp(now_secs as i64) {
            None => None,
            Some(stamp) => Some(
                Run {
                    step: Step::Idle,
                    outcome: None,
                    branch: branch_name(now_secs),
                    primary: String::new(),
                    stamp,
                    request: 0,
                    touched: 0,
                    min_files,
                    max_files,
                },
            ),
        }
    }

    fn fail(&mut self, cause: String) -> (cmd: Command)
        requires
            old(self).wf(),
            old(self).step != Step::Finished,
        ensures
            final(self).wf(),
            final(self).step == Step::Finished,
            final(self).outcome == Some(
                (RunOutcome::FailedAtStage { stage: stage_of(old(self).step), cause }),
            ),
            cmd == (Command::Finish { outcome: final(self).outcome->0 }),
            final(self).branch == old(self).branch,
            final(self).primary == old(self).primary,
            final(self).stamp == old(self).stamp,
            final(self).request == old(self).request,
            final(self).touched == old(self).touched,
            final(self).min_files == old(self).min_files,
            final(self).max_files == old(self).max_files,
    {
        let stage = stage_of_exec(self.step);
        self.step = Step::Finished;
        self.outcome = Some(RunOutcome::FailedAtStage { stage, cause: cause.clone() });
        Command::Finish { outcome: RunOutcome::FailedAtStage { stage, cause } }
    }
}

impl Run {
    /// The command of the current step, for steps that draw nothing.
    fn command_for(&self) -> (cmd: Command)
        requires
            self.wf(),
            self.step != Step::Idle,
            self.step != Step::Mutate,
            self.step != Step::Wait,
            self.step != Step::Finished,
        ensures
            self.issued(cmd),
    {
        match self.step {
            Step::ProbeMain => Command::Checkout { branch: String::from_str("main") },
            Step::ProbeMaster => Command::Checkout { branch: String::from_str("master") },
            Step::PullPrimary => Command::Pull { branch: self.primary.clone() },
            Step::CreateBranch => Command::CreateBranch { name: self.branch.clone() },
            Step::Scan | Step::Rescan => Command::ScanCandidates,
            Step::Seed => Command::SeedDefaults,
            Step::SeedAdd | Step::Add => Command::AddAll,
            Step::SeedCommit => Command::Commit { message: String::from_str("Add initial files") },
            Step::SeedPush => Command::PushHead { target: self.primary.clone() },
            Step::Push => Command::Push { branch: self.branch.clone(), set_upstream: true },
            Step::Commit => Command::Commit { message: commit_message(self.touched) },
            Step::Open => Command::OpenRequest {
                title: request_title(&self.stamp),
                head: self.branch.clone(),
                base: self.primary.clone(),
                body: request_body(&self.stamp),
            },
            Step::Delay => Command::Wait { seconds: MERGE_DELAY_SECS },
            Step::Merge => Command::Merge { number: self.request, title: merge_title(self.request) },
            Step::Checkout => Command::Checkout { branch: self.primary.clone() },
            Step::DeleteLocal => Command::DeleteLocalBranch { name: self.branch.clone() },
            Step::DeleteRemote => Command::DeleteRemoteBranch { name: self.branch.clone() },
            _ => Command::ScanCandidates,
        }
    }

    /// Fails the run on an answer that its step cannot take.
    fn reject(&mut self, event: Event) -> (cmd: Command)
        requires
            old(self).wf(),
            old(self).step != Step::Finished,
        ensures
            final(self).wf(),
            final(self).step == Step::Finished,
            final(self).outcome matches Some(RunOutcome::FailedAtStage { stage, cause }) && stage
                == stage_of(old(self).step) && cause@ == cause_of(old(self).step, event),
            cmd == (Command::Finish { outcome: final(self).outcome->0 }),
            final(self).branch == old(self).branch,
            final(self).primary == old(self).primary,
            final(self).stamp == old(self).stamp,
            final(self).request == old(self).request,
            final(self).touched == old(self).touched,
            final(self).min_files == old(self).min_files,
            final(self).max_files == old(self).max_files,
    {
        match event {
            Event::Failed { cause } => self.fail(cause),
            Event::Candidates { .. } => if self.step == Step::Rescan {
                self.fail(String::from_str("no candidate files after seeding"))
            } else {
                self.fail(String::from_str("unexpected answer"))
            },
            _ => self.fail(String::from_str("unexpected answer")),
        }
    }

    /// Takes the answer to the last command and returns the next one. The
    /// first call starts the run and ignores its event. A failure answer
    /// ends the run at the stage it came in, and a run that has ended only
    /// repeats its outcome: no later stage is ever asked for.
    pub fn advance(&mut self, event: Event, rng: &mut rand::rngs::StdRng) -> (cmd: Command)
        requires
            old(self).wf(),
        ensures
            final(self).wf(),
            final(self).branch == old(self).branch,
            final(self).stamp == old(self).stamp,
            final(self).min_files == old(self).min_files,
            final(self).max_files == old(self).max_files,
            old(self).step == Step::Finished ==> final(self).step == Step::Finished
                && final(self).outcome == old(self).outcome && cmd == (Command::Finish {
                outcome: old(self).outcome->0,
            }),
            old(self).step != Step::Finished && succ(old(self).step, event) is None ==> {
                &&& final(self).step == Step::Finished
                &&& final(self).outcome matches Some(RunOutcome::FailedAtStage { stage, cause })
                    && stage == stage_of(old(self).step) && cause@ == cause_of(old(self).step, event)
                &&& cmd == (Command::Finish { outcome: final(self).outcome->0 })
            },
            succ(old(self).step, event) matches Some(ns) ==> old(self).step != Step::Finished ==> {
                &&& final(self).step == ns
                &&& ns == Step::Finished ==> final(self).outcome == Some(RunOutcome::Success) && cmd
                    == (Command::Finish { outcome: RunOutcome::Success })
                &&& ns != Step::Finished ==> final(self).issued(cmd)
            },
            old(self).step == Step::ProbeMain && event is Done ==> final(self).primary@ == "main"@,
            old(self).step == Step::ProbeMaster && event is Done ==> final(self).primary@ == "master"@,
            old(self).step != Step::ProbeMain && old(self).step != Step::ProbeMaster ==> final(self).primary
                == old(self).primary,
            event matches Event::Opened { number } ==> old(self).step == Step::Open
                ==> final(self).request == number,
            event matches Event::Candidates { paths } ==> (old(self).step == Step::Scan
                || old(self).step == Step::Rescan) && paths@.len() > 0
                ==> (cmd matches Command::MutateFiles { paths: chosen } && {
                &&& min_nat(old(self).min_files as nat, distinct_views(string_views(paths@)).len())
                    <= chosen@.len()
                &&& chosen@.len() <= min_nat(
                    old(self).max_files as nat,
                    distinct_views(string_views(paths@)).len(),
                )
                &&& forall|i: int|
                    0 <= i < chosen@.len() ==> string_views(paths@).contains(#[trigger] chosen@[i]@)
                &&& no_duplicates(string_views(chosen@))
            }),
            stage_rank(stage_of(old(self).step)) <= stage_rank(stage_of(final(self).step)),
            final(self).step == next_step(old(self).step, event),
            !(old(self).step == Step::Open && event is Opened) ==> final(self).request == old(
                self,
            ).request,
            !((old(self).step == Step::Scan || old(self).step == Step::Rescan) && event is Candidates)
                ==> final(self).touched == old(self).touched,
    {
        let step = self.step;
        if step == Step::Finished {
            return match &self.outcome {
                Some(o) => Command::Finish { outcome: copy_outcome(o) },
                None => Command::Finish { outcome: RunOutcome::Success },
            };
        }
        if step == Step::Idle {
            self.step = Step::ProbeMain;
            return self.command_for();
        }
        match event {
            Event::Done => {
                let next = match step {
                    Step::ProbeMain => Step::PullPrimary,
                    Step::ProbeMaster => Step::PullPrimary,
                    Step::PullPrimary => Step::CreateBranch,
                    Step::CreateBranch => Step::Scan,
                    Step::Seed => Step::SeedAdd,
                    Step::SeedAdd => Step::SeedCommit,
                    Step::SeedCommit => Step::SeedPush,
                    Step::SeedPush => Step::Rescan,
                    Step::Mutate => Step::Add,
                    Step::Add => Step::Commit,
                    Step::Commit => Step::Push,
                    Step::Push => Step::Open,
                    Step::Wait => Step::Delay,
                    Step::Delay => Step::Merge,
                    Step::Merge => Step::Checkout,
                    Step::Checkout => Step::DeleteLocal,
                    Step::DeleteLocal => Step::DeleteRemote,
                    Step::DeleteRemote => Step::Finished,
                    _ => Step::Idle,
                };
                if next == Step::Idle {
                    return self.reject(Event::Done);
                }
                if step == Step::ProbeMain {
                    self.primary = String::from_str("main");
                } else if step == Step::ProbeMaster {
                    self.primary = String::from_str("master");
                }
                self.step = next;
                if next == Step::Finished {
                    self.outcome = Some(RunOutcome::Success);
                    Command::Finish { outcome: RunOutcome::Success }
                } else {
                    self.command_for()
                }
            },
            Event::Failed { cause } => {
                if step == Step::ProbeMain {
                    self.step = Step::ProbeMaster;
                    self.command_for()
                } else {
                    self.reject(Event::Failed { cause })
                }
            },
            Event::Candidates { paths } => {
                if step == Step::Scan && paths.len() == 0 {
                    self.step = Step::Seed;
                    self.command_for()
                } else if (step == Step::Scan || step == Step::Rescan) && paths.len() > 0 {
                    let chosen = select_targets(&paths, self.min_files, self.max_files, rng);
                    self.touched = chosen.len();
                    self.step = Step::Mutate;
                    Command::MutateFiles { paths: chosen }
                } else {
                    self.reject(Event::Candidates { paths })
                }
            },
            Event::Opened { number } => {
                if step == Step::Open {
                    self.request = number;
                    self.step = Step::Wait;
                    let w = crate::random::draw_between(
                        rng,
                        WAIT_MIN_SECS as usize,
                        (WAIT_MAX_SECS - 1) as usize,
                    );
                    Command::Wait { seconds: w as u64 }
                } else {
                    self.reject(Event::Opened { number })
                }
            },
        }
    }
}

/// The step a run is at after `e` answers step `s`: its successor, or the
/// end when there is none; an ended run stays ended.
pub open spec fn next_step(s: Step, e: Event) -> Step {
    if s == Step::Finished {
        Step::Finished
    } else {
        match succ(s, e) {
            Some(n) => n,
            None => Step::Finished,
        }
    }
}

/// The steps a run starting at `s` passes through as `evs` answer it, one
/// entry per answer.
pub open spec fn walk(s: Step, evs: Seq<Event>) -> Seq<Step>
    decreases evs.len(),
{
    if evs.len() == 0 {
        Seq::empty()
    } else {
        let p = walk(s, evs.drop_last());
        let at = if p.len() == 0 { s } else { p.last() };
        p.push(next_step(at, evs.last()))
    }
}

/// The step that answer `k` of `evs` answers.
pub open spec fn answered(s: Step, evs: Seq<Event>, k: int) -> Step {
    if k == 0 { s } else { walk(s, evs)[k - 1] }
}

proof fn lemma_walk_prefix(s: Step, evs: Seq<Event>, n: int)
    requires
        0 <= n <= evs.len(),
    ensures
        walk(s, evs).len() == evs.len(),
        walk(s, evs.take(n)) == walk(s, evs).take(n),
    decreases evs.len(),
{
    if evs.len() > 0 {
        lemma_walk_prefix(s, evs.drop_last(), 0);
        if n < evs.len() {
            lemma_walk_prefix(s, evs.drop_last(), n);
            assert(evs.drop_last().take(n) =~= evs.take(n));
            assert(walk(s, evs).take(n) =~= walk(s, evs.drop_last()).take(n));
        } else {
            assert(evs.take(n) =~= evs);
            assert(walk(s, evs).take(n) =~= walk(s, evs));
        }
    }
}

/// Fail-fast over a whole run: when answer `k` is a failure at a step other
/// than the `main` probe, the run ends at that answer, and every later
/// answer leaves it ended: no stage after the failing one is asked for.
pub proof fn lemma_failure_stops_run(s: Step, evs: Seq<Event>, k: int)
    requires
        0 <= k < evs.len(),
        evs[k] is Failed,
        answered(s, evs, k) != Step::Idle,
        answered(s, evs, k) != Step::ProbeMain,
    ensures
        forall|j: int| k <= j < evs.len() ==> #[trigger] walk(s, evs)[j] == Step::Finished,
    decreases evs.len(),
{
    lemma_walk_prefix(s, evs, 0);
    let w = walk(s, evs);
    let p = evs.drop_last();
    let n = evs.len() - 1;
    lemma_walk_prefix(s, p, 0);
    assert(w.drop_last() =~= walk(s, p));
    if k < n {
        assert(p[k] == evs[k]);
        if k > 0 {
            assert(walk(s, p)[k - 1] == w[k - 1]);
        }
        lemma_failure_stops_run(s, p, k);
        assert(walk(s, p).last() == Step::Finished);
        assert forall|j: int| k <= j < evs.len() implies #[trigger] w[j] == Step::Finished by {
            if j < n {
                assert(w[j] == walk(s, p)[j]);
            }
        }
    } else {
        let at = answered(s, evs, k);
        if k > 0 {
            assert(walk(s, p).last() == w[k - 1]);
        }
        if at != Step::Finished {
            lemma_failure_ends_run(at, evs[k]->cause);
            assert(evs[k] == Event::Failed { cause: evs[k]->cause });
        }
    }
}

/// Fail-fast: a failure answer at any step but the probe for `main` (whose
/// failure only sends the run on to probe `master`) gives the step no
/// successor, so `advance` ends the run with the failure at that step's stage.
pub proof fn lemma_failure_ends_run(s: Step, cause: String)
    requires
        s != Step::Idle,
        s != Step::ProbeMain,
    ensures
        succ(s, Event::Failed { cause }) is None,
{
}

/// A run never goes back to an earlier stage: each step's successor belongs
/// to the same stage or a later one.
pub proof fn lemma_stages_advance(s: Step, e: Event)
    ensures
        succ(s, e) matches Some(n) ==> stage_rank(stage_of(s)) <= stage_rank(stage_of(n)),
{
}

/// A change request is opened only at the step that follows a successful push.
pub proof fn lemma_request_after_push(s: Step, e: Event)
    ensures
        succ(s, e) == Some(Step::Open) ==> s == Step::Push && e == Event::Done,
{
}

/// A copy of `o`.
fn copy_outcome(o: &RunOutcome) -> (r: RunOutcome)
    ensures
        r == *o,
{
    match o {
        RunOutcome::Success => RunOutcome::Success,
        RunOutcome::FailedAtStage { stage, cause } => RunOutcome::FailedAtStage {
            stage: *stage,
            cause: cause.clone(),
        },
    }
}

fn stage_of_exec(s: Step) -> (r: Stage)
    ensures
        r == stage_of(s),
{
    match s {
        Step::Idle | Step::ProbeMain | Step::ProbeMaster | Step::PullPrimary | Step::CreateBranch => Stage::Branching,
        Step::Scan | Step::Seed | Step::SeedAdd | Step::SeedCommit | Step::SeedPush | Step::Rescan
        | Step::Mutate => Stage::Mutating,
        Step::Add | Step::Commit => Stage::Committing,
        Step::Push => Stage::Pushing,
        Step::Open => Stage::Requesting,
        Step::Wait => Stage::Waiting,
        Step::Delay | Step::Merge => Stage::Merging,
        Step::Checkout | Step::DeleteLocal | Step::DeleteRemote | Step::Finished => Stage::CleaningUp,
    }
}

} // verus!
