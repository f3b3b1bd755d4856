//! The work units' decision logic. Each unit is an independent
//! computation that the surrounding program schedules; what it says and
//! when it suspends is decided here, as a script of steps or as pure
//! decision functions over the answers the filesystem gave. No unit
//! reads another unit's state.

use vstd::prelude::*;
use crate::grammar::Command;
use crate::grammar::CommandModel;
use crate::report::IoErrorKind;
use crate::report::WorkOutcome;
use crate::report::count_msg_of;
use crate::report::count_message;
use crate::report::dir_created_message;
use crate::report::dir_created_of;
use crate::report::file_created_message;
use crate::report::file_created_of;
use crate::report::sleeper_started_message;
use crate::report::sleeper_started_of;
use crate::report::slept_message;
use crate::report::slept_of;

verus! {

/// One step of a unit's script: say a line, or suspend for a number of
/// seconds.
pub enum Step {
    Emit(String),
    Pause(u64),
}

/// The model of a step: the line as a character sequence.
pub enum StepModel {
    Emit(Seq<char>),
    Pause(u64),
}

impl View for Step {
    type V = StepModel;

    open spec fn view(&self) -> StepModel {
        match self {
            Step::Emit(m) => StepModel::Emit(m@),
            Step::Pause(s) => StepModel::Pause(*s),
        }
    }
}

/// A script as its model: each step viewed.
pub open spec fn script_model(v: Seq<Step>) -> Seq<StepModel> {
    v.map_values(|s: Step| s@)
}

/// The lines a script emits, in order, with the pauses left out.
pub open spec fn emitted(steps: Seq<StepModel>) -> Seq<Seq<char>>
    decreases steps.len(),
{
    if steps.len() == 0 {
        Seq::empty()
    } else {
        let rest = emitted(steps.drop_last());
        match steps.last() {
            StepModel::Emit(m) => rest.push(m),
            StepModel::Pause(_) => rest,
        }
    }
}

/// The seconds a script asks its runner to suspend, in total.
pub open spec fn total_pause(steps: Seq<StepModel>) -> int
    decreases steps.len(),
{
    if steps.len() == 0 {
        0
    } else {
        total_pause(steps.drop_last()) + match steps.last() {
            StepModel::Emit(_) => 0int,
            StepModel::Pause(s) => s as int,
        }
    }
}

/// The sleeper's script: announce the start, suspend for the requested
/// seconds, announce the completion.
pub open spec fn sleep_script_spec(seconds: u64) -> Seq<StepModel> {
    seq![
        StepModel::Emit(sleeper_started_of(seconds)),
        StepModel::Pause(seconds),
        StepModel::Emit(slept_of(seconds)),
    ]
}

/// Builds the sleeper's script, exactly as `sleep_script_spec` states.
pub fn sleep_script(seconds: u64) -> (r: Vec<Step>)
    ensures
        script_model(r@) == sleep_script_spec(seconds),
{
    let mut v: Vec<Step> = Vec::new();
    v.push(Step::Emit(sleeper_started_message(seconds)));
    v.push(Step::Pause(seconds));
    v.push(Step::Emit(slept_message(seconds)));
    proof {
        assert(script_model(v@) =~= sleep_script_spec(seconds));
    }
    v
}

/// The sleeper announces its start before its completion, and nothing
/// else: the two lines come in that order.
pub proof fn lemma_sleep_script_order(seconds: u64)
    ensures
        emitted(sleep_script_spec(seconds)) == seq![
            sleeper_started_of(seconds),
            slept_of(seconds),
        ],
{
    let s = sleep_script_spec(seconds);
    let e0 = StepModel::Emit(sleeper_started_of(seconds));
    let p = StepModel::Pause(seconds);
    assert(s.last() == StepModel::Emit(slept_of(seconds)));
    assert(s.drop_last() =~= seq![e0, p]);
    assert(seq![e0, p].last() == p);
    assert(seq![e0, p].drop_last() =~= seq![e0]);
    assert(seq![e0].last() == e0);
    assert(seq![e0].drop_last() =~= Seq::<StepModel>::empty());
    assert(emitted(Seq::<StepModel>::empty()) =~= Seq::<Seq<char>>::empty());
    assert(emitted(seq![e0]) =~= seq![sleeper_started_of(seconds)]);
    assert(emitted(seq![e0, p]) =~= seq![sleeper_started_of(seconds)]);
    assert(emitted(s) =~= seq![sleeper_started_of(seconds), slept_of(seconds)]);
}

/// The sleeper suspends for exactly the requested seconds: a runner
/// that performs every pause in full is suspended at least that long.
pub proof fn lemma_sleep_total_pause(seconds: u64)
    ensures
        total_pause(sleep_script_spec(seconds)) == seconds as int,
{
    let s = sleep_script_spec(seconds);
    let e0 = StepModel::Emit(sleeper_started_of(seconds));
    let p = StepModel::Pause(seconds);
    assert(s.drop_last() =~= seq![e0, p]);
    assert(seq![e0, p].drop_last() =~= seq![e0]);
    assert(seq![e0].drop_last() =~= Seq::<StepModel>::empty());
    assert(total_pause(Seq::<StepModel>::empty()) == 0);
    assert(total_pause(seq![e0]) == 0);
    assert(total_pause(seq![e0, p]) == seconds as int);
}

/// The counter's script: `limit + 1` ticks with values `0 ..= limit`,
/// each tick a one-second suspension followed by its progress line.
pub open spec fn count_script_spec(limit: u64) -> Seq<StepModel> {
    Seq::new(
        2 * (limit as nat) + 2,
        |i: int|
            if i % 2 == 0 {
                StepModel::Pause(1)
            } else {
                StepModel::Emit(count_msg_of(((i - 1) / 2) as nat))
            },
    )
}

/// Builds the counter's script, exactly as `count_script_spec` states.
pub fn count_script(limit: u64) -> (r: Vec<Step>)
    ensures
        script_model(r@) == count_script_spec(limit),
{
    let mut v: Vec<Step> = Vec::new();
    let mut i: u64 = 0;
    proof {
        assert(script_model(v@) =~= count_script_spec(limit).take(0));
    }
    loop
        invariant_except_break
            i <= limit,
            v@.len() == 2 * i,
            script_model(v@) == count_script_spec(limit).take(2 * (i as int)),
        ensures
            script_model(v@) == count_script_spec(limit).take(2 * (limit as int) + 2),
        decreases limit - i,
    {
        let m = count_message(i);
        v.push(Step::Pause(1));
        v.push(Step::Emit(m));
        proof {
            let s = count_script_spec(limit);
            assert(s[2 * (i as int)] == StepModel::Pause(1));
            assert(s[2 * (i as int) + 1] == StepModel::Emit(count_msg_of(i as nat)));
            assert(script_model(v@) =~= s.take(2 * (i as int) + 2));
        }
        if i == limit {
            break;
        }
        i += 1;
    }
    proof {
        assert(count_script_spec(limit).take(2 * (limit as int) + 2) =~= count_script_spec(limit));
    }
    v
}

/// The first `j` pause-and-tick pairs of the counter's script emit the
/// first `j` progress lines.
proof fn lemma_count_emitted_prefix(limit: u64, j: int)
    requires
        0 <= j <= limit as int + 1,
    ensures
        emitted(count_script_spec(limit).take(2 * j)) == Seq::new(
            j as nat,
            |i: int| count_msg_of(i as nat),
        ),
    decreases j,
{
    let s = count_script_spec(limit);
    if j == 0 {
        assert(s.take(0) =~= Seq::<StepModel>::empty());
        assert(emitted(s.take(0)) =~= Seq::new(0, |i: int| count_msg_of(i as nat)));
    } else {
        lemma_count_emitted_prefix(limit, j - 1);
        let t2 = s.take(2 * j);
        let t1 = s.take(2 * j - 1);
        assert(t2.drop_last() =~= t1);
        assert(t2.last() == s[2 * j - 1]);
        assert((2 * j - 1) % 2 == 1 && (2 * j - 1 - 1) / 2 == j - 1);
        assert(s[2 * j - 1] == StepModel::Emit(count_msg_of((j - 1) as nat)));
        assert(t1.drop_last() =~= s.take(2 * (j - 1)));
        assert(t1.last() == s[2 * j - 2]);
        assert((2 * j - 2) % 2 == 0);
        assert(s[2 * j - 2] == StepModel::Pause(1));
        assert(emitted(t1) == emitted(s.take(2 * (j - 1))));
        assert(emitted(t2) == emitted(t1).push(count_msg_of((j - 1) as nat)));
        assert(Seq::new((j - 1) as nat, |i: int| count_msg_of(i as nat)).push(
            count_msg_of((j - 1) as nat),
        ) =~= Seq::new(j as nat, |i: int| count_msg_of(i as nat)));
    }
}

/// The first `j` pause-and-tick pairs of the counter's script suspend
/// for `j` seconds in total.
proof fn lemma_count_pause_prefix(limit: u64, j: int)
    requires
        0 <= j <= limit as int + 1,
    ensures
        total_pause(count_script_spec(limit).take(2 * j)) == j,
    decreases j,
{
    let s = count_script_spec(limit);
    if j == 0 {
        assert(s.take(0) =~= Seq::<StepModel>::empty());
    } else {
        lemma_count_pause_prefix(limit, j - 1);
        let t2 = s.take(2 * j);
        let t1 = s.take(2 * j - 1);
        assert(t2.drop_last() =~= t1);
        assert(t2.last() == s[2 * j - 1]);
        assert((2 * j - 1) % 2 == 1 && (2 * j - 1 - 1) / 2 == j - 1);
        assert(s[2 * j - 1] == StepModel::Emit(count_msg_of((j - 1) as nat)));
        assert(total_pause(t2) == total_pause(t1));
        assert(t1.drop_last() =~= s.take(2 * (j - 1)));
        assert(t1.last() == s[2 * j - 2]);
        assert((2 * j - 2) % 2 == 0);
        assert(s[2 * j - 2] == StepModel::Pause(1));
        assert(total_pause(t1) == total_pause(s.take(2 * (j - 1))) + 1);
    }
}

/// The counter suspends one second before each tick's line: `limit + 1`
/// seconds in total.
pub proof fn lemma_count_total_pause(limit: u64)
    ensures
        total_pause(count_script_spec(limit)) == limit as int + 1,
{
    lemma_count_pause_prefix(limit, limit as int + 1);
    assert(count_script_spec(limit).take(2 * (limit as int + 1)) =~= count_script_spec(limit));
}

/// The counter's central law: its script emits exactly `limit + 1`
/// progress lines, with tick values `0, 1, ..., limit` in that order.
pub proof fn lemma_count_script_ticks(limit: u64)
    ensures
        emitted(count_script_spec(limit)) == Seq::new(
            limit as nat + 1,
            |i: int| count_msg_of(i as nat),
        ),
{
    lemma_count_emitted_prefix(limit, limit as int + 1);
    assert(count_script_spec(limit).take(2 * (limit as int + 1)) =~= count_script_spec(limit));
}

/// The work unit a dispatched command selects. The two timed units
/// carry their whole script; the filesystem units carry their path and
/// decide against the filesystem's answers as they run.
pub enum UnitPlan {
    Script(Vec<Step>),
    ReadFile(String),
    CreateFile(String),
    CreateDir(String),
}

/// The dispatcher's exhaustive selection: which unit runs for which
/// command. Exit selects no unit — it ends the accepting phase instead.
pub fn unit_plan(c: Command) -> (r: Option<UnitPlan>)
    ensures
        match c@ {
            CommandModel::Exit => r is None,
            CommandModel::Sleep(s) => (r matches Some(UnitPlan::Script(v)) && script_model(v@)
                == sleep_script_spec(s)),
            CommandModel::Count(n) => (r matches Some(UnitPlan::Script(v)) && script_model(v@)
                == count_script_spec(n)),
            CommandModel::ReadFromFile(p) => (r matches Some(UnitPlan::ReadFile(q)) && q@ == p),
            CommandModel::CreateFile(p) => (r matches Some(UnitPlan::CreateFile(q)) && q@ == p),
            CommandModel::CreateDir(p) => (r matches Some(UnitPlan::CreateDir(q)) && q@ == p),
        },
{
    match c {
        Command::Exit => None,
        Command::Sleep(s) => Some(UnitPlan::Script(sleep_script(s))),
        Command::Count(n) => Some(UnitPlan::Script(count_script(n))),
        Command::ReadFromFile(p) => Some(UnitPlan::ReadFile(p)),
        Command::CreateFile(p) => Some(UnitPlan::CreateFile(p)),
        Command::CreateDir(p) => Some(UnitPlan::CreateDir(p)),
    }
}

/// After the file-creating unit's probe of the enclosing directory: the
/// directory is created first exactly when the probe did not positively
/// confirm it exists — an inconclusive probe counts as missing.
pub fn needs_parent_creation(probe: &Result<bool, IoErrorKind>) -> (r: bool)
    ensures
        r == !(probe matches Ok(true)),
{
    !matches!(probe, Ok(true))
}

/// The file-reading unit's outcome, for every answer the filesystem can
/// give: the content itself on success, the kind-tagged detail on
/// failure. Never a crash, never propagated.
pub fn read_file_outcome(content: Result<String, (IoErrorKind, String)>) -> (r: WorkOutcome)
    ensures
        match content {
            Ok(c) => r matches WorkOutcome::Success(m) && m@ == c@,
            Err((k, d)) => r matches WorkOutcome::Failure(k2, m) && k2 == k && m@ == d@,
        },
{
    match content {
        Ok(c) => WorkOutcome::Success(c),
        Err((k, d)) => WorkOutcome::Failure(k, d),
    }
}

/// The file-creating unit's outcome. It depends only on the creation
/// attempt itself: a failure while creating the enclosing directory was
/// already reported and deliberately swallowed.
pub fn create_file_outcome(path: &str, created: Result<(), (IoErrorKind, String)>) -> (r:
    WorkOutcome)
    ensures
        match created {
            Ok(_) => r matches WorkOutcome::Success(m) && m@ == file_created_of(path@),
            Err((k, d)) => r matches WorkOutcome::Failure(k2, m) && k2 == k && m@ == d@,
        },
{
    match created {
        Ok(_) => WorkOutcome::Success(file_created_message(path)),
        Err((k, d)) => WorkOutcome::Failure(k, d),
    }
}

/// The directory-creating unit's outcome, for every answer the
/// filesystem can give.
pub fn create_dir_outcome(path: &str, created: Result<(), (IoErrorKind, String)>) -> (r:
    WorkOutcome)
    ensures
        match created {
            Ok(_) => r matches WorkOutcome::Success(m) && m@ == dir_created_of(path@),
            Err((k, d)) => r matches WorkOutcome::Failure(k2, m) && k2 == k && m@ == d@,
        },
{
    match created {
        Ok(_) => WorkOutcome::Success(dir_created_message(path)),
        Err((k, d)) => WorkOutcome::Failure(k, d),
    }
}

} // verus!
