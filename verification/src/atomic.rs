//! The protocol by which the backing file is replaced as a whole: the new
//! text goes to a temporary file beside the target, under a lock, and only a
//! temporary file that was written in full is renamed onto the target.
//!
//! The protocol is a state machine. Whoever handles the files asks it for
//! the next step, carries the step out, and tells it how the step ended. The
//! disk is modelled here as two files, and each step by what it does to
//! them; the safety of the protocol is proved of that model.

use vstd::prelude::*;

verus! {

/// How far a replacement has come.
#[derive(Debug, Clone, Copy, PartialEq, Eq, Structural)]
pub enum Phase {
    /// Nothing was done yet.
    Start,
    /// The temporary file exists, in the directory of the target.
    TempCreated,
    /// The temporary file is locked.
    Locked,
    /// The new text was written to the temporary file and flushed.
    Written,
    /// The lock was released.
    Unlocked,
    /// The temporary file was renamed onto the target.
    Done,
    /// A step failed. The target was not touched.
    Failed,
}

/// One step of the protocol.
#[derive(Debug, Clone, Copy, PartialEq, Eq, Structural)]
pub enum Step {
    /// Create a temporary file in the directory of the target.
    CreateTemp,
    /// Take an exclusive advisory lock on the temporary file.
    Lock,
    /// Write the new text to the temporary file and flush it.
    Write,
    /// Release the lock.
    Unlock,
    /// Rename the temporary file onto the target.
    Rename,
}

/// The step that is due in a phase, and none when the replacement has ended.
pub open spec fn step_of(phase: Phase) -> Option<Step> {
    match phase {
        Phase::Start => Some(Step::CreateTemp),
        Phase::TempCreated => Some(Step::Lock),
        Phase::Locked => Some(Step::Write),
        Phase::Written => Some(Step::Unlock),
        Phase::Unlocked => Some(Step::Rename),
        Phase::Done => None,
        Phase::Failed => None,
    }
}

/// The phase after the step that was due has succeeded or failed. A failure
/// of any step ends the replacement: the rename is due only after the
/// temporary file was created, locked, written and unlocked.
pub open spec fn phase_after(phase: Phase, ok: bool) -> Phase {
    match phase {
        Phase::Start => if ok {
            Phase::TempCreated
        } else {
            Phase::Failed
        },
        Phase::TempCreated => if ok {
            Phase::Locked
        } else {
            Phase::Failed
        },
        Phase::Locked => if ok {
            Phase::Written
        } else {
            Phase::Failed
        },
        Phase::Written => if ok {
            Phase::Unlocked
        } else {
            Phase::Failed
        },
        Phase::Unlocked => if ok {
            Phase::Done
        } else {
            Phase::Failed
        },
        Phase::Done => Phase::Done,
        Phase::Failed => Phase::Failed,
    }
}

/// The two files of a replacement as they are on disk: the text of each, and
/// `None` for a file that does not exist.
pub struct Disk {
    pub target: Option<Seq<char>>,
    pub temp: Option<Seq<char>>,
}

/// What a step does to the disk. Creating the temporary file gives an empty
/// file. A write that succeeds leaves the new text in the temporary file;
/// one that fails leaves `partial` there, which may be anything. A rename
/// that succeeds puts the temporary file in the place of the target, in one
/// move; one that fails changes nothing. Locks change no text.
pub open spec fn disk_after(
    disk: Disk,
    step: Step,
    ok: bool,
    content: Seq<char>,
    partial: Seq<char>,
) -> Disk {
    match step {
        Step::CreateTemp => if ok {
            Disk { target: disk.target, temp: Some(Seq::<char>::empty()) }
        } else {
            disk
        },
        Step::Lock => disk,
        Step::Write => Disk {
            target: disk.target,
            temp: Some(
                if ok {
                    content
                } else {
                    partial
                },
            ),
        },
        Step::Unlock => disk,
        Step::Rename => if ok {
            Disk { target: disk.temp, temp: None }
        } else {
            disk
        },
    }
}

/// A replacement under way: its phase, and the disk.
pub struct Run {
    pub phase: Phase,
    pub disk: Disk,
}

/// How one step ended: whether it succeeded, and what a failed write left in
/// the temporary file.
pub struct StepEnd {
    pub ok: bool,
    pub partial: Seq<char>,
}

/// The start of a replacement of a target that holds `before`.
pub open spec fn run_start(before: Option<Seq<char>>) -> Run {
    Run { phase: Phase::Start, disk: Disk { target: before, temp: None } }
}

/// The run after the step that was due has ended. A run that has ended
/// stays as it is.
pub open spec fn run_step(run: Run, end: StepEnd, content: Seq<char>) -> Run {
    match step_of(run.phase) {
        Some(step) => Run {
            phase: phase_after(run.phase, end.ok),
            disk: disk_after(run.disk, step, end.ok, content, end.partial),
        },
        None => run,
    }
}

/// The run after the steps have ended as `ends` says, one after the other.
/// A process that is killed leaves the run where its last step left it.
pub open spec fn run_after(before: Option<Seq<char>>, ends: Seq<StepEnd>, content: Seq<char>) -> Run
    decreases ends.len(),
{
    if ends.len() == 0 {
        run_start(before)
    } else {
        run_step(run_after(before, ends.drop_last(), content), ends.last(), content)
    }
}

/// Whether a run is safe: the target holds the old text in full until the
/// rename, and the new text in full after it, with no temporary file left;
/// and the temporary file holds the new text in full from the end of the
/// write to the rename.
pub open spec fn is_safe(run: Run, before: Option<Seq<char>>, content: Seq<char>) -> bool {
    match run.phase {
        Phase::Done => run.disk.target == Some(content) && run.disk.temp is None,
        Phase::Written => run.disk.target == before && run.disk.temp == Some(content),
        Phase::Unlocked => run.disk.target == before && run.disk.temp == Some(content),
        _ => run.disk.target == before,
    }
}

/// A step keeps a safe run safe, however it ends.
pub proof fn lemma_step_is_safe(
    run: Run,
    end: StepEnd,
    before: Option<Seq<char>>,
    content: Seq<char>,
)
    requires
        is_safe(run, before, content),
    ensures
        is_safe(run_step(run, end, content), before, content),
{
}

/// Whatever happens to the steps of a replacement, and wherever it stops,
/// the target holds either the old text in full or the new text in full,
/// and never anything else. It holds the new text exactly when the rename
/// was done, and then no temporary file is left. A replacement that failed
/// has left the target as it was.
pub proof fn lemma_replacement_is_atomic(
    before: Option<Seq<char>>,
    ends: Seq<StepEnd>,
    content: Seq<char>,
)
    ensures
        is_safe(run_after(before, ends, content), before, content),
        run_after(before, ends, content).phase != Phase::Done ==> run_after(
            before,
            ends,
            content,
        ).disk.target == before,
        run_after(before, ends, content).phase == Phase::Done ==> run_after(
            before,
            ends,
            content,
        ).disk == (Disk { target: Some(content), temp: None }),
    decreases ends.len(),
{
    if ends.len() > 0 {
        lemma_replacement_is_atomic(before, ends.drop_last(), content);
        lemma_step_is_safe(
            run_after(before, ends.drop_last(), content),
            ends.last(),
            before,
            content,
        );
    }
}

/// The rename is the last step, and it is due only after the new text was
/// written in full and the lock released: a replacement reaches `Done` only
/// through every step, each having succeeded, and a step that fails ends it
/// as `Failed`, after which no step is due.
pub proof fn lemma_rename_comes_last(phase: Phase, ok: bool)
    ensures
        phase_after(phase, ok) == Phase::Done ==> phase == Phase::Done || (phase
            == Phase::Unlocked && ok),
        phase_after(phase, ok) == Phase::Unlocked ==> phase == Phase::Written && ok,
        !ok && phase != Phase::Done ==> phase_after(phase, ok) == Phase::Failed,
        step_of(Phase::Failed) is None,
        phase_after(phase, ok) == Phase::Written ==> phase == Phase::Locked && ok,
        phase_after(phase, ok) == Phase::Locked ==> phase == Phase::TempCreated && ok,
        phase_after(phase, ok) == Phase::TempCreated ==> phase == Phase::Start && ok,
        step_of(phase) == Some(Step::Rename) <==> phase == Phase::Unlocked,
{
}

/// The replacement of the backing file, as far as it has come.
#[derive(Debug, Clone, Copy, PartialEq, Eq, Structural)]
pub struct AtomicWrite {
    phase: Phase,
}

impl View for AtomicWrite {
    type V = Phase;

    closed spec fn view(&self) -> Phase {
        self.phase
    }
}

impl AtomicWrite {
    /// A replacement of which nothing was done yet.
    pub fn new() -> (write: AtomicWrite)
        ensures
            write@ == Phase::Start,
    {
        AtomicWrite { phase: Phase::Start }
    }

    /// How far the replacement has come.
    pub fn phase(&self) -> (phase: Phase)
        ensures
            phase == self@,
    {
        self.phase
    }

    /// The step that is due, and none when the replacement has ended.
    pub fn next_step(&self) -> (step: Option<Step>)
        ensures
            step == step_of(self@),
    {
        match self.phase {
            Phase::Start => Some(Step::CreateTemp),
            Phase::TempCreated => Some(Step::Lock),
            Phase::Locked => Some(Step::Write),
            Phase::Written => Some(Step::Unlock),
            Phase::Unlocked => Some(Step::Rename),
            Phase::Done => None,
            Phase::Failed => None,
        }
    }

    /// Takes note of how the step that was due has ended.
    pub fn record(&mut self, ok: bool)
        ensures
            final(self)@ == phase_after(old(self)@, ok),
    {
        self.phase = match self.phase {
            Phase::Start => if ok {
                Phase::TempCreated
            } else {
                Phase::Failed
            },
            Phase::TempCreated => if ok {
                Phase::Locked
            } else {
                Phase::Failed
            },
            Phase::Locked => if ok {
                Phase::Written
            } else {
                Phase::Failed
            },
            Phase::Written => if ok {
                Phase::Unlocked
            } else {
                Phase::Failed
            },
            Phase::Unlocked => if ok {
                Phase::Done
            } else {
                Phase::Failed
            },
            Phase::Done => Phase::Done,
            Phase::Failed => Phase::Failed,
        };
    }

    /// Whether the target was replaced.
    pub fn is_done(&self) -> (done: bool)
        ensures
            done == (self@ == Phase::Done),
    {
        self.phase == Phase::Done
    }
}

} // verus!
