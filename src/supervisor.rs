//! The decisions of the decode pipeline supervisor: a state machine from the
//! current state and what just happened to the next state and what to do.
//! The caller carries out each action (build, receive, push, tear down,
//! sleep) and reports what came of it as the next event.
use vstd::prelude::*;
use crate::keyframe::{contains_keyframe, has_stream_start};

verus! {

/// Nominal duration of one frame in nanoseconds (about 30 frames a second).
pub const FRAME_DURATION_NS: u64 = 33_333_333;

/// Delay before a failed pipeline is rebuilt, in milliseconds.
pub const BACKOFF_MS: u64 = 500;

/// Longest wait for the next elementary unit, in milliseconds, so that a
/// shutdown request is seen promptly when no data arrives.
pub const POLL_TIMEOUT_MS: u64 = 100;

/// Lifecycle phase of the pipeline.
#[derive(Debug, Clone, Copy, PartialEq, Eq, Structural)]
pub enum Phase {
    Building,
    Playing,
    Draining,
    Backoff,
    Stopped,
}

/// What the caller observed after carrying out the last action.
#[derive(Debug, Clone)]
pub enum Event {
    /// The pipeline was built, linked, published and started.
    Built,
    /// No decoder backend could be instantiated.
    BuildFailed,
    /// An elementary unit arrived from ingest.
    Unit(Vec<u8>),
    /// The action ended with nothing to report: a unit was pushed or
    /// discarded, or the timed receive expired.
    Done,
    /// The backend refused a unit.
    PushFailed,
    /// The pipeline reported an error or an end of stream.
    PipelineError,
    /// The ingest channel closed.
    IngestClosed,
    /// A holder of the pipeline handle asked for shutdown.
    ShutdownRequested,
    /// The pipeline was stopped, its handle cleared and the queued units discarded.
    TornDown,
    /// The backoff delay elapsed.
    BackoffElapsed,
}

/// What the caller has to do next.
#[derive(Debug, Clone, Copy, PartialEq, Eq, Structural)]
pub enum Action {
    /// Select a backend, build and link the pipeline, publish its handle and start it.
    BuildPipeline,
    /// Wait up to `timeout_ms` for the next elementary unit.
    Poll { timeout_ms: u64 },
    /// Push the unit just received, stamped with these times.
    Push { pts_ns: u64, duration_ns: u64 },
    /// Drop the unit just received.
    Discard,
    /// Stop the pipeline, release the backend, clear the handle and discard queued units.
    TearDown,
    /// Wait `ms` milliseconds.
    Sleep { ms: u64 },
    /// Finish: the stream ended or shutdown was requested.
    Exit,
    /// Finish: no decoder backend is available.
    Fatal,
}

/// State of the supervisor.
#[derive(Debug, Clone, Copy, PartialEq, Eq, Structural)]
pub struct Supervisor {
    pub phase: Phase,
    /// The current cycle ends without a restart.
    pub clean: bool,
    /// Units are discarded until one holds a stream-start unit.
    pub awaiting_keyframe: bool,
    /// Presentation time given to the next pushed unit.
    pub next_pts_ns: u64,
}

/// Presentation time after `pts`, held at the largest value once it is reached.
pub open spec fn pts_after(pts: u64) -> u64 {
    if pts <= u64::MAX - FRAME_DURATION_NS {
        (pts + FRAME_DURATION_NS) as u64
    } else {
        u64::MAX
    }
}

/// The action that a phase asks for while nothing changes it.
pub open spec fn pending(p: Phase) -> Action {
    match p {
        Phase::Building => Action::BuildPipeline,
        Phase::Playing => Action::Poll { timeout_ms: POLL_TIMEOUT_MS },
        Phase::Draining => Action::TearDown,
        Phase::Backoff => Action::Sleep { ms: BACKOFF_MS },
        Phase::Stopped => Action::Exit,
    }
}

/// `s` moved to phase `p`, the rest kept.
pub open spec fn in_phase(s: Supervisor, p: Phase) -> Supervisor {
    Supervisor { phase: p, ..s }
}

/// The state on entry into `Playing`: the keyframe gate closed, time from zero.
pub open spec fn fresh_playing() -> Supervisor {
    Supervisor { phase: Phase::Playing, clean: false, awaiting_keyframe: true, next_pts_ns: 0 }
}

/// The next state and the action, from state `s` and event `e`.
pub open spec fn transition(s: Supervisor, e: Event) -> (Supervisor, Action) {
    match s.phase {
        Phase::Building => match e {
            Event::Built => (fresh_playing(), Action::Poll { timeout_ms: POLL_TIMEOUT_MS }),
            Event::BuildFailed => (in_phase(s, Phase::Stopped), Action::Fatal),
            Event::ShutdownRequested => (in_phase(s, Phase::Stopped), Action::Exit),
            _ => (s, Action::BuildPipeline),
        },
        Phase::Playing => match e {
            Event::Unit(u) => if s.awaiting_keyframe && !has_stream_start(u@) {
                (s, Action::Discard)
            } else {
                (
                    Supervisor {
                        awaiting_keyframe: false,
                        next_pts_ns: pts_after(s.next_pts_ns),
                        ..s
                    },
                    Action::Push { pts_ns: s.next_pts_ns, duration_ns: FRAME_DURATION_NS },
                )
            },
            Event::PushFailed | Event::PipelineError => (
                Supervisor { phase: Phase::Draining, clean: false, ..s },
                Action::TearDown,
            ),
            Event::IngestClosed | Event::ShutdownRequested => (
                Supervisor { phase: Phase::Draining, clean: true, ..s },
                Action::TearDown,
            ),
            _ => (s, Action::Poll { timeout_ms: POLL_TIMEOUT_MS }),
        },
        Phase::Draining => match e {
            Event::TornDown => if s.clean {
                (in_phase(s, Phase::Stopped), Action::Exit)
            } else {
                (in_phase(s, Phase::Backoff), Action::Sleep { ms: BACKOFF_MS })
            },
            Event::ShutdownRequested => (Supervisor { clean: true, ..s }, Action::TearDown),
            _ => (s, Action::TearDown),
        },
        Phase::Backoff => match e {
            Event::BackoffElapsed => (in_phase(s, Phase::Building), Action::BuildPipeline),
            Event::ShutdownRequested => (in_phase(s, Phase::Stopped), Action::Exit),
            _ => (s, Action::Sleep { ms: BACKOFF_MS }),
        },
        Phase::Stopped => (s, Action::Exit),
    }
}

/// The states and actions that the events `evs` lead through from `s`, in order.
pub open spec fn run(s: Supervisor, evs: Seq<Event>) -> (Supervisor, Seq<Action>)
    decreases evs.len(),
{
    if evs.len() == 0 {
        (s, Seq::empty())
    } else {
        let (s1, a) = transition(s, evs[0]);
        let (s2, rest) = run(s1, evs.drop_first());
        (s2, seq![a] + rest)
    }
}

/// A failure of the backend while playing: a refused push, an error or an end of stream.
pub open spec fn is_backend_failure(e: Event) -> bool {
    e is PushFailed || e is PipelineError
}

/// A build that succeeds and then meets each failure of `failures` in turn,
/// each followed by teardown and the backoff delay; then a build that succeeds
/// and the unit `unit`.
pub open spec fn failure_script(failures: Seq<Event>, unit: Event) -> Seq<Event>
    decreases failures.len(),
{
    if failures.len() == 0 {
        seq![Event::Built, unit]
    } else {
        seq![Event::Built, failures[0], Event::TornDown, Event::BackoffElapsed]
            + failure_script(failures.drop_first(), unit)
    }
}

/// `n` restart cycles, each a teardown, the backoff delay and a rebuild; then
/// delivery resumed with the first unit stamped at time zero.
pub open spec fn restart_actions(n: nat) -> Seq<Action>
    decreases n,
{
    if n == 0 {
        seq![
            Action::Poll { timeout_ms: POLL_TIMEOUT_MS },
            Action::Push { pts_ns: 0, duration_ns: FRAME_DURATION_NS },
        ]
    } else {
        seq![
            Action::Poll { timeout_ms: POLL_TIMEOUT_MS },
            Action::TearDown,
            Action::Sleep { ms: BACKOFF_MS },
            Action::BuildPipeline,
        ] + restart_actions((n - 1) as nat)
    }
}

proof fn lemma_run_cons(s: Supervisor, e: Event, rest: Seq<Event>)
    ensures
        run(s, seq![e] + rest) == ({
            let (s1, a) = transition(s, e);
            let (s2, acts) = run(s1, rest);
            (s2, seq![a] + acts)
        }),
{
    let evs = seq![e] + rest;
    assert(evs[0] == e);
    assert(evs.drop_first() =~= rest);
}

/// Restarts: from a supervisor about to build, `n` backend failures lead to
/// exactly `n` restart cycles, each a teardown followed by the fixed backoff
/// delay and a rebuild, after which the first stream-start unit is pushed.
pub proof fn lemma_restart_per_failure(s: Supervisor, failures: Seq<Event>, unit: Event)
    requires
        s.phase == Phase::Building,
        forall|i: int| 0 <= i < failures.len() ==> is_backend_failure(#[trigger] failures[i]),
        unit matches Event::Unit(u) && has_stream_start(u@),
    ensures
        run(s, failure_script(failures, unit)) == (
            Supervisor {
                phase: Phase::Playing,
                clean: false,
                awaiting_keyframe: false,
                next_pts_ns: FRAME_DURATION_NS,
            },
            restart_actions(failures.len()),
        ),
    decreases failures.len(),
{
    let script = failure_script(failures, unit);
    if failures.len() == 0 {
        assert(script =~= seq![Event::Built] + seq![unit]);
        lemma_run_cons(s, Event::Built, seq![unit]);
        assert(seq![unit] =~= seq![unit] + Seq::<Event>::empty());
        lemma_run_cons(fresh_playing(), unit, Seq::empty());
        assert(restart_actions(0) =~= seq![Action::Poll { timeout_ms: POLL_TIMEOUT_MS }] + seq![
            Action::Push { pts_ns: 0, duration_ns: FRAME_DURATION_NS },
        ]);
    } else {
        let f = failures[0];
        assert(is_backend_failure(f));
        let rest = failure_script(failures.drop_first(), unit);
        let s1 = fresh_playing();
        let s2 = Supervisor { phase: Phase::Draining, clean: false, ..s1 };
        let s3 = in_phase(s2, Phase::Backoff);
        let s4 = in_phase(s3, Phase::Building);
        assert(script =~= seq![Event::Built] + (seq![f] + (seq![Event::TornDown] + (seq![
            Event::BackoffElapsed,
        ] + rest))));
        lemma_run_cons(s, Event::Built, seq![f] + (seq![Event::TornDown] + (seq![
            Event::BackoffElapsed,
        ] + rest)));
        lemma_run_cons(s1, f, seq![Event::TornDown] + (seq![Event::BackoffElapsed] + rest));
        lemma_run_cons(s2, Event::TornDown, seq![Event::BackoffElapsed] + rest);
        lemma_run_cons(s3, Event::BackoffElapsed, rest);
        lemma_restart_per_failure(s4, failures.drop_first(), unit);
        assert(restart_actions(failures.len()) =~= seq![Action::Poll { timeout_ms: POLL_TIMEOUT_MS }]
            + (seq![Action::TearDown] + (seq![Action::Sleep { ms: BACKOFF_MS }] + (seq![
            Action::BuildPipeline,
        ] + restart_actions((failures.len() - 1) as nat)))));
    }
}

impl Supervisor {
    /// A supervisor about to build its first pipeline.
    pub fn new() -> (r: Supervisor)
        ensures
            r == (Supervisor {
                phase: Phase::Building,
                clean: false,
                awaiting_keyframe: true,
                next_pts_ns: 0,
            }),
    {
        Supervisor { phase: Phase::Building, clean: false, awaiting_keyframe: true, next_pts_ns: 0 }
    }

    /// The action the current phase asks for.
    pub fn pending_action(&self) -> (r: Action)
        ensures
            r == pending(self.phase),
    {
        match self.phase {
            Phase::Building => Action::BuildPipeline,
            Phase::Playing => Action::Poll { timeout_ms: POLL_TIMEOUT_MS },
            Phase::Draining => Action::TearDown,
            Phase::Backoff => Action::Sleep { ms: BACKOFF_MS },
            Phase::Stopped => Action::Exit,
        }
    }

    /// Whether the supervisor has finished.
    pub fn is_stopped(&self) -> (r: bool)
        ensures
            r == (self.phase == Phase::Stopped),
    {
        self.phase == Phase::Stopped
    }

    /// Takes in what happened and returns what to do next.
    pub fn step(&mut self, ev: &Event) -> (a: Action)
        ensures
            (*final(self), a) == transition(*old(self), *ev),
    {
        match self.phase {
            Phase::Building => match ev {
                Event::Built => {
                    *self = Supervisor {
                        phase: Phase::Playing,
                        clean: false,
                        awaiting_keyframe: true,
                        next_pts_ns: 0,
                    };
                    Action::Poll { timeout_ms: POLL_TIMEOUT_MS }
                },
                Event::BuildFailed => {
                    self.phase = Phase::Stopped;
                    Action::Fatal
                },
                Event::ShutdownRequested => {
                    self.phase = Phase::Stopped;
                    Action::Exit
                },
                _ => Action::BuildPipeline,
            },
            Phase::Playing => match ev {
                Event::Unit(u) => {
                    if self.awaiting_keyframe && !contains_keyframe(u.as_slice()) {
                        Action::Discard
                    } else {
                        let pts = self.next_pts_ns;
                        self.awaiting_keyframe = false;
                        self.next_pts_ns = if pts <= u64::MAX - FRAME_DURATION_NS {
                            pts + FRAME_DURATION_NS
                        } else {
                            u64::MAX
                        };
                        Action::Push { pts_ns: pts, duration_ns: FRAME_DURATION_NS }
                    }
                },
                Event::PushFailed | Event::PipelineError => {
                    self.phase = Phase::Draining;
                    self.clean = false;
                    Action::TearDown
                },
                Event::IngestClosed | Event::ShutdownRequested => {
                    self.phase = Phase::Draining;
                    self.clean = true;
                    Action::TearDown
                },
                _ => Action::Poll { timeout_ms: POLL_TIMEOUT_MS },
            },
            Phase::Draining => match ev {
                Event::TornDown => {
                    if self.clean {
                        self.phase = Phase::Stopped;
                        Action::Exit
                    } else {
                        self.phase = Phase::Backoff;
                        Action::Sleep { ms: BACKOFF_MS }
                    }
                },
                Event::ShutdownRequested => {
                    self.clean = true;
                    Action::TearDown
                },
                _ => Action::TearDown,
            },
            Phase::Backoff => match ev {
                Event::BackoffElapsed => {
                    self.phase = Phase::Building;
                    Action::BuildPipeline
                },
                Event::ShutdownRequested => {
                    self.phase = Phase::Stopped;
                    Action::Exit
                },
                _ => Action::Sleep { ms: BACKOFF_MS },
            },
            Phase::Stopped => Action::Exit,
        }
    }
}

} // verus!
