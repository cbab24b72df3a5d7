//! The measurement session: which payload to run next, and how each
//! iteration's outcome folds into the per-generation statistics.
//!
//! The session is a state machine. The caller repeatedly asks
//! [`Session::next_request`] for the next payload, performs the one step the
//! library cannot (write the payload to the transient file, spawn the target
//! on it, time the call), and reports the outcome back through
//! [`Session::record_duration`] or [`Session::record_failure`]. Every
//! decision — generation lengths, growth, statistics folding, the
//! abort-on-failure policy — is made and verified here.

use vstd::prelude::*;
use crate::configs::Config;
use crate::domain::{ConfigError, Sampler};
use crate::run::Run;
use crate::text::{dec_text, int_text, i64_text, usize_text};

verus! {

/// Why a measurement run failed.
#[derive(Debug, Clone, PartialEq, Eq)]
pub enum ErrorKind {
    /// The target process could not be spawned.
    FailedToStart,
    /// The target exited with a non-zero code, or on a signal (`None`).
    NotSuccessful(Option<i32>),
    /// The transient argument file could not be written.
    CantWriteArgs,
    /// The target did not exit within the configured per-invocation bound.
    TimedOut,
}

/// An error that aborts a whole measurement run. A single failed iteration
/// discards the run: nothing is retried or partially reported.
#[derive(Debug, Clone, PartialEq, Eq)]
pub struct Error {
    /// What failed.
    pub kind: ErrorKind,
}

/// The failure report's text.
pub open spec fn message_text(e: Error) -> Seq<char> {
    match e.kind {
        ErrorKind::FailedToStart => "Failed to start program"@,
        ErrorKind::CantWriteArgs => "Can't write arguments to temporary file"@,
        ErrorKind::TimedOut => "Program timed out"@,
        ErrorKind::NotSuccessful(status) => match status {
            Some(code) => "Program finished not successful. Exiting code '"@ + int_text(
                code as int,
            ) + "'"@,
            None => "Program terminated by signal"@,
        },
    }
}

impl Error {
    /// The error of a target that could not be spawned.
    pub fn failed_to_start() -> (e: Error)
        ensures
            e.kind == ErrorKind::FailedToStart,
    {
        Error { kind: ErrorKind::FailedToStart }
    }

    /// The error of a target that exited with non-zero `status`, or on a
    /// signal (`None`).
    pub fn not_successful(status: Option<i32>) -> (e: Error)
        ensures
            e.kind == ErrorKind::NotSuccessful(status),
    {
        Error { kind: ErrorKind::NotSuccessful(status) }
    }

    /// The error of a transient argument file that could not be written.
    pub fn cant_write_args() -> (e: Error)
        ensures
            e.kind == ErrorKind::CantWriteArgs,
    {
        Error { kind: ErrorKind::CantWriteArgs }
    }

    /// The error of a target that did not exit within the configured
    /// per-invocation bound.
    pub fn timed_out() -> (e: Error)
        ensures
            e.kind == ErrorKind::TimedOut,
    {
        Error { kind: ErrorKind::TimedOut }
    }

    /// The failure report, as text.
    pub fn message(&self) -> (s: String)
        ensures
            s@ == message_text(*self),
    {
        match &self.kind {
            ErrorKind::FailedToStart => String::from_str("Failed to start program"),
            ErrorKind::CantWriteArgs => String::from_str(
                "Can't write arguments to temporary file",
            ),
            ErrorKind::TimedOut => String::from_str("Program timed out"),
            ErrorKind::NotSuccessful(status) => match status {
                Some(code) => {
                    let s = String::from_str("Program finished not successful. Exiting code '")
                        .concat(i64_text(*code as i64).as_str()).concat("'");
                    proof {
                        assert(s@ =~= message_text(*self));
                    }
                    s
                },
                None => String::from_str("Program terminated by signal"),
            },
        }
    }
}

/// The settings of one measurement run: the target, where transient files
/// go, the argument specs, and how many generations of how many iterations
/// to measure.
#[derive(Debug)]
pub struct Program {
    /// Path of the target executable, as text.
    pub path: String,
    /// Directory for the transient argument files, as text.
    pub path_to_temp: String,
    /// The argument specs; each owns its growth state.
    pub args: Vec<Config>,
    /// How many generations of growing size to measure. At least 1.
    pub gens: usize,
    /// How many timing iterations each generation runs. At least 1.
    pub iters: usize,
}

impl Program {
    /// Positive counts, and every argument spec valid.
    pub open spec fn wf(self) -> bool {
        &&& self.gens >= 1
        &&& self.iters >= 1
        &&& forall|i: int| 0 <= i < self.args@.len() ==> (#[trigger] self.args@[i]).valid()
    }

    /// Builds the settings of one run from already validated parts.
    pub fn new(path: String, path_to_temp: String, args: Vec<Config>, gens: usize, iters: usize) -> (p:
        Program)
        requires
            gens >= 1,
            iters >= 1,
            forall|i: int| 0 <= i < args@.len() ==> (#[trigger] args@[i]).valid(),
        ensures
            p.wf(),
            p.path == path,
            p.path_to_temp == path_to_temp,
            p.args == args,
            p.gens == gens,
            p.iters == iters,
    {
        Program { path, path_to_temp, args, gens, iters }
    }

    /// The path of the target executable.
    pub fn path(&self) -> (p: &String)
        ensures
            p == &self.path,
    {
        &self.path
    }
}

/// Checks a whole configuration before any execution: every argument spec
/// valid, and both counts at least one.
pub fn validate_settings(args: &Vec<Config>, gens: usize, iters: usize) -> (r: Result<
    (),
    ConfigError,
>)
    ensures
        r is Ok <==> (gens >= 1 && iters >= 1 && forall|i: int|
            0 <= i < args@.len() ==> (#[trigger] args@[i]).valid()),
{
    if gens < 1 || iters < 1 {
        return Err(ConfigError::InvalidCount);
    }
    let mut i: usize = 0;
    while i < args.len()
        invariant
            i <= args@.len(),
            forall|j: int| 0 <= j < i ==> (#[trigger] args@[j]).valid(),
        decreases args@.len() - i,
    {
        match args[i].validate() {
            Ok(()) => {},
            Err(e) => {
                return Err(e);
            },
        }
        i = i + 1;
    }
    Ok(())
}

/// `after` is `before` with every argument spec grown by one step.
pub open spec fn advanced_args(before: Seq<Config>, after: Seq<Config>) -> bool {
    after.len() == before.len() && forall|i: int|
        0 <= i < before.len() ==> after[i] == (#[trigger] before[i]).spec_grown()
}

/// `a + b` clamped at the machine word.
pub open spec fn sat_add(a: int, b: int) -> int {
    if a + b > usize::MAX {
        usize::MAX as int
    } else {
        a + b
    }
}

/// The total element count of the argument specs at their current sizes,
/// clamped at the machine word.
pub open spec fn total_len(args: Seq<Config>) -> int
    decreases args.len(),
{
    if args.len() == 0 {
        0
    } else {
        sat_add(total_len(args.drop_last()), args.last().spec_len())
    }
}

/// What the combined payload of all argument specs can be: each spec's
/// payload in order, space separated.
pub open spec fn args_payload_ok(args: Seq<Config>, s: Seq<char>) -> bool {
    exists|parts: Seq<Seq<char>>|
        #[trigger] joined_text(parts) == s && parts.len() == args.len() && (forall|i: int|
            0 <= i < args.len() ==> (#[trigger] args[i]).payload_ok(parts[i]))
}

/// The parts joined with one space between neighbours.
pub open spec fn joined_text(parts: Seq<Seq<char>>) -> Seq<char>
    decreases parts.len(),
{
    if parts.len() == 0 {
        Seq::<char>::empty()
    } else if parts.len() == 1 {
        parts[0]
    } else {
        joined_text(parts.drop_last()) + seq![' '] + parts.last()
    }
}

/// The transient file that one iteration's payload goes to:
/// `<temp>/generation_<g>_iteration_<i>.txt`.
pub open spec fn file_name_text(temp: Seq<char>, g: int, i: int) -> Seq<char> {
    temp + "/generation_"@ + dec_text(g as nat) + "_iteration_"@ + dec_text(i as nat) + ".txt"@
}

/// Renders every argument spec at its current size and joins the payloads
/// with one space. Every call draws fresh samples.
fn render_args(args: &Vec<Config>, sampler: &mut Sampler) -> (s: String)
    requires
        forall|i: int| 0 <= i < args@.len() ==> (#[trigger] args@[i]).valid(),
    ensures
        args_payload_ok(args@, s@),
{
    let mut s = String::new();
    let ghost mut parts: Seq<Seq<char>> = Seq::empty();
    proof {
        assert(joined_text(parts) =~= Seq::<char>::empty());
        assert(s@ =~= joined_text(parts));
    }
    let mut i: usize = 0;
    while i < args.len()
        invariant
            i <= args@.len(),
            forall|j: int| 0 <= j < args@.len() ==> (#[trigger] args@[j]).valid(),
            parts.len() == i,
            forall|j: int| 0 <= j < i ==> (#[trigger] args@[j]).payload_ok(parts[j]),
            s@ == joined_text(parts),
        decreases args@.len() - i,
    {
        let part = args[i].generate(sampler);
        if i > 0 {
            proof {
                reveal_strlit(" ");
            }
            s = s.concat(" ").concat(part.as_str());
        } else {
            s = part;
        }
        proof {
            let grown = parts.push(part@);
            assert(grown.drop_last() =~= parts);
            assert(s@ =~= joined_text(grown));
            parts = grown;
        }
        i = i + 1;
    }
    s
}

/// What the caller must do next: write `payload` to the file at
/// `file_path`, run the target with that path as its only argument, time
/// the call, and report the outcome.
#[derive(Debug)]
pub struct Request {
    /// The generation this iteration belongs to.
    pub gen: usize,
    /// The iteration within the generation.
    pub iter: usize,
    /// Where the payload goes.
    pub file_path: String,
    /// The rendered argument payload.
    pub payload: String,
}

/// Where a measurement session stands.
#[derive(Debug)]
pub enum SessionPhase {
    /// The next iteration can be requested.
    Ready,
    /// A request is out; its outcome has not been reported yet.
    Awaiting,
    /// An iteration failed; the whole run is aborted.
    Failed(Error),
    /// All generations are measured.
    Done,
}

/// One measurement run in progress: generations of iterations, strictly
/// sequential, aborted as a whole by the first failure.
#[derive(Debug)]
pub struct Session {
    /// The run's settings; the argument specs grow once per generation.
    pub program: Program,
    /// The generation being measured.
    pub gen: usize,
    /// The next iteration within the current generation.
    pub iter: usize,
    /// The statistics of the current generation so far.
    pub current: Run,
    /// The finished generations' statistics, in order.
    pub runs: Vec<Run>,
    /// Where the session stands.
    pub phase: SessionPhase,
}

impl Session {
    /// The session invariant: one finished measurement per finished
    /// generation, counters inside their ranges, and the settings well
    /// formed.
    pub open spec fn wf(self) -> bool {
        &&& self.program.wf()
        &&& self.runs@.len() == self.gen
        &&& self.gen <= self.program.gens
        &&& self.iter < self.program.iters
        &&& (self.phase is Done ==> self.gen == self.program.gens)
        &&& ((self.phase is Ready || self.phase is Awaiting) ==> self.gen < self.program.gens)
    }

    /// Starts a measurement session on `program`.
    pub fn new(program: Program) -> (s: Session)
        requires
            program.wf(),
        ensures
            s.wf(),
            s.program == program,
            s.gen == 0,
            s.iter == 0,
            s.runs@ == Seq::<Run>::empty(),
            s.phase is Ready,
    {
        Session {
            program,
            gen: 0,
            iter: 0,
            current: Run::default(),
            runs: Vec::new(),
            phase: SessionPhase::Ready,
        }
    }

    /// Produces the next iteration's request, or nothing once the session
    /// is done or failed.
    ///
    /// At the first iteration of a generation the statistics are reset and
    /// the generation's total length determined: generation zero uses the
    /// specs' initial sizes, every later generation grows every spec once,
    /// in spec order. Every call renders a fresh payload.
    pub fn next_request(&mut self, sampler: &mut Sampler) -> (r: Option<Request>)
        requires
            old(self).wf(),
            !(old(self).phase is Awaiting),
        ensures
            final(self).wf(),
            match r {
                None => *final(self) == *old(self) && (old(self).phase is Done || old(
                    self,
                ).phase is Failed),
                Some(req) => {
                    &&& old(self).phase is Ready
                    &&& final(self).phase is Awaiting
                    &&& req.gen == old(self).gen && req.iter == old(self).iter
                    &&& final(self).gen == old(self).gen && final(self).iter == old(self).iter
                    &&& final(self).runs == old(self).runs
                    &&& final(self).program.path == old(self).program.path
                    &&& final(self).program.path_to_temp == old(self).program.path_to_temp
                    &&& final(self).program.gens == old(self).program.gens
                    &&& final(self).program.iters == old(self).program.iters
                    &&& req.file_path@ == file_name_text(
                        old(self).program.path_to_temp@,
                        old(self).gen as int,
                        old(self).iter as int,
                    )
                    &&& args_payload_ok(final(self).program.args@, req.payload@)
                    &&& (if old(self).iter == 0 {
                        &&& (if old(self).gen == 0 {
                            final(self).program.args == old(self).program.args
                        } else {
                            advanced_args(old(self).program.args@, final(self).program.args@)
                        })
                        &&& final(self).current.len == total_len(final(self).program.args@)
                        &&& final(self).current.min == u64::MAX
                        &&& final(self).current.max == 0
                        &&& final(self).current.avg == 0
                    } else {
                        &&& final(self).program.args == old(self).program.args
                        &&& final(self).current == old(self).current
                    })
                },
            },
    {
        match &self.phase {
            SessionPhase::Failed(_) => {
                return None;
            },
            SessionPhase::Done => {
                return None;
            },
            SessionPhase::Awaiting => {
                return None;
            },
            SessionPhase::Ready => {},
        }
        if self.iter == 0 {
            let mut fresh = Run::default();
            fresh.len = if self.gen == 0 {
                current_total_len(&self.program.args)
            } else {
                let ghost before = self.program.args@;
                let n = advance_all(&mut self.program.args);
                proof {
                    assert forall|i: int|
                        0 <= i < self.program.args@.len() implies (#[trigger] self.program.args@[
                        i
                    ]).valid() by {
                        crate::configs::lemma_grown_config_valid(before[i]);
                    }
                }
                n
            };
            self.current = fresh;
        }
        let payload = render_args(&self.program.args, sampler);
        let file_path = file_name(&self.program.path_to_temp, self.gen, self.iter);
        let req = Request { gen: self.gen, iter: self.iter, file_path, payload };
        self.phase = SessionPhase::Awaiting;
        Some(req)
    }

    /// Folds a successful iteration's elapsed time into the current
    /// generation. Completing a generation finalizes its average (the
    /// accumulated sum divided by the iteration count) and emits its
    /// statistics; completing the last generation finishes the session.
    pub fn record_duration(&mut self, elapsed: u64)
        requires
            old(self).wf(),
            old(self).phase is Awaiting,
        ensures
            final(self).wf(),
            final(self).program == old(self).program,
            (if old(self).iter + 1 == old(self).program.iters {
                &&& final(self).runs@ == old(self).runs@.push(
                    Run {
                        avg: (old(self).current.updated(elapsed).avg as int / old(
                            self,
                        ).program.iters as int) as u64,
                        ..old(self).current.updated(elapsed)
                    },
                )
                &&& final(self).gen == old(self).gen + 1
                &&& final(self).iter == 0
                &&& final(self).phase == (if old(self).gen + 1 == old(self).program.gens {
                    SessionPhase::Done
                } else {
                    SessionPhase::Ready
                })
            } else {
                &&& final(self).runs == old(self).runs
                &&& final(self).current == old(self).current.updated(elapsed)
                &&& final(self).gen == old(self).gen
                &&& final(self).iter == old(self).iter + 1
                &&& final(self).phase is Ready
            }),
    {
        self.current.update(elapsed);
        if self.iter + 1 == self.program.iters {
            let mut finished = self.current;
            finished.avg = finished.avg / (self.program.iters as u64);
            self.runs.push(finished);
            self.gen = self.gen + 1;
            self.iter = 0;
            if self.gen == self.program.gens {
                self.phase = SessionPhase::Done;
            } else {
                self.phase = SessionPhase::Ready;
            }
        } else {
            self.iter = self.iter + 1;
            self.phase = SessionPhase::Ready;
        }
    }

    /// Aborts the whole run: the error is kept and no further request is
    /// produced. The statistics already collected are discarded, never
    /// partially reported.
    pub fn record_failure(&mut self, error: Error)
        requires
            old(self).wf(),
            old(self).phase is Awaiting,
        ensures
            final(self).wf(),
            final(self).phase == SessionPhase::Failed(error),
            final(self).program == old(self).program,
            final(self).runs == old(self).runs,
            final(self).gen == old(self).gen,
            final(self).iter == old(self).iter,
    {
        self.phase = SessionPhase::Failed(error);
    }

    /// The run's outcome: the ordered per-generation statistics, or the
    /// error that aborted the run — in which case no statistics at all are
    /// handed out, not even those of earlier generations.
    pub fn finish(self) -> (r: Result<Vec<Run>, Error>)
        requires
            self.phase is Done || self.phase is Failed,
        ensures
            match self.phase {
                SessionPhase::Done => r is Ok && r.unwrap()@ == self.runs@,
                SessionPhase::Failed(e) => r == Result::<Vec<Run>, Error>::Err(e),
                _ => false,
            },
    {
        match self.phase {
            SessionPhase::Done => Ok(self.runs),
            SessionPhase::Failed(e) => Err(e),
            _ => unreached(),
        }
    }
}

/// The total element count of the specs at their current sizes, without
/// growing them.
fn current_total_len(args: &Vec<Config>) -> (n: usize)
    ensures
        n == total_len(args@),
{
    let mut acc: usize = 0;
    let mut i: usize = 0;
    proof {
        assert(args@.subrange(0, 0) =~= Seq::<Config>::empty());
    }
    while i < args.len()
        invariant
            i <= args@.len(),
            acc == total_len(args@.subrange(0, i as int)),
        decreases args@.len() - i,
    {
        proof {
            assert(args@.subrange(0, i + 1).drop_last() =~= args@.subrange(0, i as int));
            assert(args@.subrange(0, i + 1).last() == args@[i as int]);
        }
        acc = acc.saturating_add(args[i].len());
        i = i + 1;
    }
    proof {
        assert(args@.subrange(0, args@.len() as int) =~= args@);
    }
    acc
}

/// Grows every spec by one step, in order, and returns the new total
/// element count.
fn advance_all(args: &mut Vec<Config>) -> (n: usize)
    ensures
        advanced_args(old(args)@, final(args)@),
        n == total_len(final(args)@),
{
    let mut acc: usize = 0;
    let mut i: usize = 0;
    proof {
        assert(args@.subrange(0, 0) =~= Seq::<Config>::empty());
    }
    while i < args.len()
        invariant
            i <= args@.len(),
            args@.len() == old(args)@.len(),
            forall|j: int| i <= j < args@.len() ==> args@[j] == old(args)@[j],
            forall|j: int| 0 <= j < i ==> args@[j] == (#[trigger] old(args)@[j]).spec_grown(),
            acc == total_len(args@.subrange(0, i as int)),
        decreases args@.len() - i,
    {
        let ghost before = args@;
        let mut c = args[i];
        let step = c.next_len();
        args.set(i, c);
        proof {
            assert(args@.subrange(0, i + 1).drop_last() =~= args@.subrange(0, i as int));
            assert(args@.subrange(0, i + 1).last() == args@[i as int]);
            assert forall|j: int| 0 <= j < i implies args@.subrange(0, i as int)[j] == before.subrange(
                0,
                i as int,
            )[j] by {}
            assert(args@.subrange(0, i as int) =~= before.subrange(0, i as int));
        }
        acc = acc.saturating_add(step);
        i = i + 1;
    }
    proof {
        assert(args@.subrange(0, args@.len() as int) =~= args@);
    }
    acc
}

/// Builds the transient file's path for one iteration:
/// `<temp>/generation_<g>_iteration_<i>.txt`.
fn file_name(temp: &String, g: usize, i: usize) -> (s: String)
    ensures
        s@ == file_name_text(temp@, g as int, i as int),
{
    proof {
        reveal_strlit("/generation_");
        reveal_strlit("_iteration_");
        reveal_strlit(".txt");
    }
    let s = temp.clone().concat("/generation_").concat(usize_text(g).as_str()).concat(
        "_iteration_",
    ).concat(usize_text(i).as_str()).concat(".txt");
    proof {
        assert(s@ =~= file_name_text(temp@, g as int, i as int));
    }
    s
}

} // verus!
