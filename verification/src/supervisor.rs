//! Process supervisor.
//!
//! One value of [`RunSupervisor`] drives one worker invocation. The
//! surrounding application performs the I/O — spawning, reading the output
//! streams, waiting, signalling, filesystem changes — and reports each
//! observation as a [`WorkerEvent`]; the supervisor decides, through
//! [`RunSupervisor::on_event`], what must happen next, as a list of
//! [`Action`]s: registering and deregistering the cancellation key,
//! forwarding routed events, and concluding the run with a verdict and the
//! mandatory promote-or-discard step for its staging directory. Exactly one
//! conclusion is produced per run, and only once the output stream is done.

use vstd::prelude::*;
use vstd::string::*;
use crate::events::{
    error_kind, json_object_type, line_reports_error, route_line, routed_channel, Event, Payload,
};
use crate::exit::{
    classify_code, classify_exit, code_view, spec_failure_message, synth_failure_message,
    Classification,
};

verus! {

/// Where a run stands.
#[derive(Clone, Copy, PartialEq, Eq, Structural, Debug)]
pub enum Phase {
    /// No process exists yet.
    NotStarted,
    /// The worker runs and its output is being drained.
    Streaming,
    /// The run has concluded; nothing more will happen.
    Done,
}

/// One observation the application reports to the supervisor.
pub enum WorkerEvent {
    /// The worker was spawned with this process identifier.
    Spawned { pid: u32 },
    /// The OS failed to create the process.
    SpawnFailed { message: String },
    /// One complete line arrived on the worker's standard output.
    StdoutLine { line: String },
    /// One complete line arrived on the worker's standard error.
    StderrLine { line: String },
    /// The worker was reaped with this exit code, `None` when it was
    /// terminated by a signal.
    Exited { code: Option<i32> },
    /// Waiting for the worker failed.
    WaitFailed { message: String },
}

/// The terminal judgement of one run.
pub struct Verdict {
    /// How the exit status was classified.
    pub class: Classification,
    /// Whether the worker already reported its own failure as a structured
    /// error record; a caller must not then also report a generic one.
    pub already_reported: bool,
    /// Human-readable message for a cancellation or an unreported failure.
    pub message: String,
}

/// What must happen to the run's staging directory on conclusion.
#[derive(Clone, Copy, PartialEq, Eq, Structural, Debug)]
pub enum OutputStep {
    /// Rename the staging directory to a fresh completion identifier.
    Promote,
    /// Recursively remove the staging directory.
    Discard,
    /// The run owns no staging directory.
    Keep,
}

/// One thing the application must do on the supervisor's behalf.
pub enum Action {
    /// Track the spawned process under the run's cancellation key, strictly
    /// before any output is consumed.
    Register { key: String, pid: u32 },
    /// Stop tracking the run's cancellation key.
    Deregister { key: String },
    /// Forward one event to the listener.
    Emit { event: Event },
    /// Conclude the run: report the verdict and perform the output step.
    Conclude { verdict: Verdict, output: OutputStep },
}

/// The supervisor of one worker invocation.
pub struct RunSupervisor {
    /// Channel domain for forwarded events.
    pub prefix: String,
    /// Cancellation key, when the run is stoppable out of band.
    pub key: Option<String>,
    /// Correlation key stamped on every forwarded event.
    pub corr: Option<String>,
    /// Identifier of the staging directory this run owns, if any.
    pub staging: Option<String>,
    /// Where the run stands.
    pub phase: Phase,
    /// Whether a structured error record has arrived on standard output.
    pub worker_reported_error: bool,
    /// Diagnostic buffer of standard-error lines.
    pub stderr: Vec<String>,
}

/// The fields a step never changes.
pub open spec fn same_config(a: RunSupervisor, b: RunSupervisor) -> bool {
    &&& b.prefix == a.prefix
    &&& b.key == a.key
    &&& b.corr == a.corr
    &&& b.staging == a.staging
}

/// How many conclusions a batch of actions holds.
pub open spec fn conclude_count(out: Seq<Action>) -> nat
    decreases out.len(),
{
    if out.len() == 0 {
        0
    } else {
        conclude_count(out.drop_last()) + (if out.last() is Conclude {
            1nat
        } else {
            0nat
        })
    }
}

/// Whether this event closes the run from this state.
pub open spec fn closing(s: RunSupervisor, ev: WorkerEvent) -> bool {
    ||| s.phase is NotStarted && ev is SpawnFailed
    ||| s.phase is Streaming && (ev is Exited || ev is WaitFailed)
}

/// The mandatory output step on conclusion: a run owning a staging
/// directory promotes it on success and discards it on anything else.
pub open spec fn output_step_for(staging: Option<String>, class: Classification) -> OutputStep {
    match staging {
        None => OutputStep::Keep,
        Some(_) => if class is Success {
            OutputStep::Promote
        } else {
            OutputStep::Discard
        },
    }
}

/// The message a cancelled run concludes with.
pub open spec fn cancel_note() -> Seq<char> {
    "run stopped, incomplete output discarded"@
}

/// Whether `v` is the verdict owed for this exit code, given whether the
/// worker reported its own failure and what stood on standard error.
pub open spec fn verdict_for(
    code: Option<int>,
    reported: bool,
    stderr: Seq<String>,
    v: Verdict,
) -> bool {
    &&& v.class == classify_code(code)
    &&& v.already_reported == reported
    &&& v.message@ == (match classify_code(code) {
        Classification::Success => Seq::<char>::empty(),
        Classification::Cancelled => cancel_note(),
        Classification::Failed => if reported {
            Seq::<char>::empty()
        } else {
            spec_failure_message(code, stderr)
        },
    })
}

/// Whether `a` forwards the event owed for one standard-output line.
pub open spec fn routed_emit(
    prefix: Seq<char>,
    line: Seq<char>,
    corr: Option<String>,
    a: Action,
) -> bool {
    match a {
        Action::Emit { event } => {
            &&& event.channel@ == routed_channel(prefix, line)
            &&& (match event.payload {
                Payload::Record(s) => json_object_type(line) is Some && s@ == line,
                Payload::Log(s) => json_object_type(line) is None && s@ == line,
                _ => false,
            })
            &&& event.corr == corr
        },
        _ => false,
    }
}

/// Whether `out` is the action batch owed on a reaped exit: deregistration
/// of the run's key, if it has one, then the single conclusion.
pub open spec fn exit_actions(s: RunSupervisor, code: Option<int>, out: Seq<Action>) -> bool {
    &&& (match s.key {
        Some(k) => out.len() == 2 && out[0] == (Action::Deregister { key: k }),
        None => out.len() == 1,
    })
    &&& (match out[out.len() - 1] {
        Action::Conclude { verdict, output } => {
            &&& verdict_for(code, s.worker_reported_error, s.stderr@, verdict)
            &&& output == output_step_for(s.staging, classify_code(code))
        },
        _ => false,
    })
}

/// Whether `out` is the action batch owed when waiting itself failed:
/// deregistration, then a failure conclusion carrying the wait error.
pub open spec fn wait_failed_actions(s: RunSupervisor, message: String, out: Seq<Action>) -> bool {
    &&& (match s.key {
        Some(k) => out.len() == 2 && out[0] == (Action::Deregister { key: k }),
        None => out.len() == 1,
    })
    &&& (match out[out.len() - 1] {
        Action::Conclude { verdict, output } => {
            &&& verdict.class is Failed
            &&& verdict.already_reported == s.worker_reported_error
            &&& verdict.message == message
            &&& output == output_step_for(s.staging, Classification::Failed)
        },
        _ => false,
    })
}

/// The supervisor's full transition relation: what one observed event does
/// to the state and which actions it obliges. An event arriving in a phase
/// it does not belong to changes nothing and obliges nothing; in
/// particular, a run once done stays done silently.
pub open spec fn step_ok(
    s: RunSupervisor,
    ev: WorkerEvent,
    n: RunSupervisor,
    out: Seq<Action>,
) -> bool {
    match ev {
        WorkerEvent::Spawned { pid } => if s.phase is NotStarted {
            &&& same_config(s, n)
            &&& n.phase is Streaming
            &&& n.worker_reported_error == s.worker_reported_error
            &&& n.stderr == s.stderr
            &&& (match s.key {
                Some(k) => out.len() == 1 && out[0] == (Action::Register { key: k, pid }),
                None => out.len() == 0,
            })
        } else {
            n == s && out.len() == 0
        },
        WorkerEvent::SpawnFailed { message } => if s.phase is NotStarted {
            &&& same_config(s, n)
            &&& n.phase is Done
            &&& n.worker_reported_error == s.worker_reported_error
            &&& n.stderr == s.stderr
            &&& out.len() == 1
            &&& (match out[0] {
                Action::Conclude { verdict, output } => {
                    &&& verdict.class is Failed
                    &&& verdict.already_reported == false
                    &&& verdict.message == message
                    &&& output == output_step_for(s.staging, Classification::Failed)
                },
                _ => false,
            })
        } else {
            n == s && out.len() == 0
        },
        WorkerEvent::StdoutLine { line } => if s.phase is Streaming {
            &&& same_config(s, n)
            &&& n.phase is Streaming
            &&& n.stderr == s.stderr
            &&& n.worker_reported_error == (s.worker_reported_error || json_object_type(line@)
                == Some(Some(error_kind())))
            &&& out.len() == 1
            &&& routed_emit(s.prefix@, line@, s.corr, out[0])
        } else {
            n == s && out.len() == 0
        },
        WorkerEvent::StderrLine { line } => if s.phase is Streaming {
            &&& same_config(s, n)
            &&& n.phase is Streaming
            &&& n.worker_reported_error == s.worker_reported_error
            &&& n.stderr@ == s.stderr@.push(line)
            &&& out.len() == 0
        } else {
            n == s && out.len() == 0
        },
        WorkerEvent::Exited { code } => if s.phase is Streaming {
            &&& same_config(s, n)
            &&& n.phase is Done
            &&& n.worker_reported_error == s.worker_reported_error
            &&& n.stderr == s.stderr
            &&& exit_actions(s, code_view(code), out)
        } else {
            n == s && out.len() == 0
        },
        WorkerEvent::WaitFailed { message } => if s.phase is Streaming {
            &&& same_config(s, n)
            &&& n.phase is Done
            &&& n.worker_reported_error == s.worker_reported_error
            &&& n.stderr == s.stderr
            &&& wait_failed_actions(s, message, out)
        } else {
            n == s && out.len() == 0
        },
    }
}

/// Each step obliges exactly one conclusion when it closes the run and none
/// otherwise, and a run once done is inert: no state change, no actions.
pub proof fn lemma_step_conclude_count(
    s: RunSupervisor,
    ev: WorkerEvent,
    n: RunSupervisor,
    out: Seq<Action>,
)
    requires
        step_ok(s, ev, n, out),
    ensures
        conclude_count(out) == if closing(s, ev) {
            1nat
        } else {
            0nat
        },
        closing(s, ev) ==> n.phase is Done,
        s.phase is Done ==> n == s && out.len() == 0,
{
    if out.len() == 1 {
        assert(out.last() == out[0]);
        assert(out.drop_last().len() == 0);
        assert(conclude_count(out.drop_last()) == 0);
        assert(conclude_count(out) == (if out[0] is Conclude {
            1nat
        } else {
            0nat
        }));
    }
    if out.len() == 2 {
        assert(out.last() == out[1]);
        assert(out.drop_last().len() == 1);
        assert(out.drop_last().last() == out[0]);
        assert(out.drop_last().drop_last().len() == 0);
        assert(conclude_count(out.drop_last().drop_last()) == 0);
        assert(conclude_count(out.drop_last()) == (if out[0] is Conclude {
            1nat
        } else {
            0nat
        }));
        assert(conclude_count(out) == (if out[0] is Conclude {
            1nat
        } else {
            0nat
        }) + (if out[1] is Conclude {
            1nat
        } else {
            0nat
        }));
    }
    match ev {
        WorkerEvent::Spawned { pid } => {
            if s.phase is NotStarted {
                match s.key {
                    Some(k) => {
                        assert(out[0] == (Action::Register { key: k, pid }));
                        assert(!(out[0] is Conclude));
                    },
                    None => {},
                }
            }
        },
        WorkerEvent::SpawnFailed { message } => {},
        WorkerEvent::StdoutLine { line } => {
            if s.phase is Streaming {
                assert(routed_emit(s.prefix@, line@, s.corr, out[0]));
                assert(!(out[0] is Conclude));
            }
        },
        WorkerEvent::StderrLine { line } => {},
        WorkerEvent::Exited { code } => {
            if s.phase is Streaming {
                match s.key {
                    Some(k) => {
                        assert(out[0] == (Action::Deregister { key: k }));
                        assert(!(out[0] is Conclude));
                        assert(out[1] is Conclude);
                    },
                    None => {
                        assert(out[0] is Conclude);
                    },
                }
            }
        },
        WorkerEvent::WaitFailed { message } => {
            if s.phase is Streaming {
                match s.key {
                    Some(k) => {
                        assert(out[0] == (Action::Deregister { key: k }));
                        assert(!(out[0] is Conclude));
                        assert(out[1] is Conclude);
                    },
                    None => {
                        assert(out[0] is Conclude);
                    },
                }
            }
        },
    }
}

/// Whether each consecutive pair of states is joined by a supervisor step
/// on the matching event, producing the matching action batch.
pub open spec fn chain_ok(
    states: Seq<RunSupervisor>,
    evs: Seq<WorkerEvent>,
    outs: Seq<Seq<Action>>,
) -> bool {
    &&& states.len() == evs.len() + 1
    &&& outs.len() == evs.len()
    &&& forall|k: int|
        0 <= k < evs.len() ==> step_ok(states[k], evs[k], states[k + 1], #[trigger] outs[k])
}

/// How many conclusions a whole run's action batches hold.
pub open spec fn total_concludes(outs: Seq<Seq<Action>>) -> nat
    decreases outs.len(),
{
    if outs.len() == 0 {
        0
    } else {
        total_concludes(outs.drop_last()) + conclude_count(outs.last())
    }
}

/// An observation from the worker's output streams.
pub open spec fn stream_event(ev: WorkerEvent) -> bool {
    ev is StdoutLine || ev is StderrLine
}

proof fn lemma_total_zero(outs: Seq<Seq<Action>>)
    requires
        forall|k: int| 0 <= k < outs.len() ==> conclude_count(#[trigger] outs[k]) == 0,
    ensures
        total_concludes(outs) == 0,
    decreases outs.len(),
{
    if outs.len() > 0 {
        assert(forall|k: int|
            0 <= k < outs.drop_last().len() ==> #[trigger] outs.drop_last()[k] == outs[k]);
        lemma_total_zero(outs.drop_last());
        assert(outs.last() == outs[outs.len() - 1]);
    }
}

proof fn lemma_phase_streaming(
    states: Seq<RunSupervisor>,
    evs: Seq<WorkerEvent>,
    outs: Seq<Seq<Action>>,
    k: int,
)
    requires
        chain_ok(states, evs, outs),
        states[0].phase is NotStarted,
        evs.len() >= 1,
        evs[0] is Spawned,
        1 <= k <= evs.len(),
        forall|j: int| 1 <= j < k ==> stream_event(#[trigger] evs[j]),
    ensures
        states[k].phase is Streaming,
    decreases k,
{
    if k == 1 {
        assert(step_ok(states[0], evs[0], states[1], outs[0]));
    } else {
        lemma_phase_streaming(states, evs, outs, k - 1);
        assert(step_ok(states[k - 1], evs[k - 1], states[k], outs[k - 1]));
    }
}

/// For every invocation that spawns, streams and is reaped, exactly one
/// terminal conclusion is obliged over the whole run, and it stands in the
/// final action batch — after every event forwarded from the worker's
/// output, which by then has been fully drained.
pub proof fn lemma_one_terminal_outcome(
    states: Seq<RunSupervisor>,
    evs: Seq<WorkerEvent>,
    outs: Seq<Seq<Action>>,
)
    requires
        chain_ok(states, evs, outs),
        states[0].phase is NotStarted,
        evs.len() >= 2,
        evs[0] is Spawned,
        forall|k: int| 1 <= k < evs.len() - 1 ==> stream_event(#[trigger] evs[k]),
        evs.last() is Exited,
    ensures
        total_concludes(outs) == 1,
        conclude_count(outs.last()) == 1,
{
    let n = evs.len() as int;
    assert forall|k: int| 0 <= k < n - 1 implies conclude_count(#[trigger] outs[k]) == 0 by {
        lemma_step_conclude_count(states[k], evs[k], states[k + 1], outs[k]);
    }
    lemma_phase_streaming(states, evs, outs, n - 1);
    lemma_step_conclude_count(states[n - 1], evs[n - 1], states[n], outs[n - 1]);
    assert(evs[n - 1] == evs.last());
    assert(outs[n - 1] == outs.last());
    assert(conclude_count(outs.last()) == 1);
    assert(forall|k: int|
        0 <= k < outs.drop_last().len() ==> #[trigger] outs.drop_last()[k] == outs[k]);
    lemma_total_zero(outs.drop_last());
}

proof fn lemma_flag_monotone(
    states: Seq<RunSupervisor>,
    evs: Seq<WorkerEvent>,
    outs: Seq<Seq<Action>>,
    from: int,
    to: int,
)
    requires
        chain_ok(states, evs, outs),
        0 <= from <= to <= evs.len(),
        states[from].worker_reported_error,
    ensures
        states[to].worker_reported_error,
    decreases to - from,
{
    if to > from {
        lemma_flag_monotone(states, evs, outs, from, to - 1);
        assert(step_ok(states[to - 1], evs[to - 1], states[to], outs[to - 1]));
    }
}

/// A worker that reports its own failure is never double-reported: when a
/// line of the run's output stream is a structured error record, the run's
/// single conclusion carries the mark, and a caller honouring it
/// synthesizes no generic failure event on top of the worker's own report.
pub proof fn lemma_worker_report_suppresses(
    states: Seq<RunSupervisor>,
    evs: Seq<WorkerEvent>,
    outs: Seq<Seq<Action>>,
    k: int,
)
    requires
        chain_ok(states, evs, outs),
        states[0].phase is NotStarted,
        evs.len() >= 2,
        evs[0] is Spawned,
        forall|j: int| 1 <= j < evs.len() - 1 ==> stream_event(#[trigger] evs[j]),
        evs.last() is Exited,
        1 <= k < evs.len() - 1,
        (evs[k] matches WorkerEvent::StdoutLine { line } && json_object_type(line@) == Some(
            Some(error_kind()),
        )),
    ensures
        forall|i: int|
            0 <= i < outs.last().len() ==> (#[trigger] outs.last()[i] matches Action::Conclude {
                verdict,
                output,
            } ==> verdict.already_reported),
{
    let n = evs.len() as int;
    lemma_phase_streaming(states, evs, outs, k);
    assert(step_ok(states[k], evs[k], states[k + 1], outs[k]));
    assert(states[k + 1].worker_reported_error);
    lemma_flag_monotone(states, evs, outs, k + 1, n - 1);
    lemma_phase_streaming(states, evs, outs, n - 1);
    assert(step_ok(states[n - 1], evs[n - 1], states[n], outs[n - 1]));
    assert(evs[n - 1] == evs.last());
    assert(outs[n - 1] == outs.last());
    let last = outs.last();
    assert forall|i: int|
        0 <= i < last.len() implies (#[trigger] last[i] matches Action::Conclude {
        verdict,
        output,
    } ==> verdict.already_reported) by {
        match evs[n - 1] {
            WorkerEvent::Exited { code } => {
                assert(exit_actions(states[n - 1], code_view(code), last));
                match states[n - 1].key {
                    Some(key) => {
                        if i == 0 {
                            assert(last[0] == (Action::Deregister { key }));
                        }
                    },
                    None => {},
                }
            },
            _ => {},
        }
    }
}

fn clone_opt_string(o: &Option<String>) -> (r: Option<String>)
    ensures
        r == *o,
{
    match o {
        Some(s) => Some(s.clone()),
        None => None,
    }
}

impl RunSupervisor {
    /// A supervisor for one invocation that has not started yet.
    pub fn new_run(
        prefix: String,
        key: Option<String>,
        corr: Option<String>,
        staging: Option<String>,
    ) -> (r: RunSupervisor)
        ensures
            r.prefix == prefix,
            r.key == key,
            r.corr == corr,
            r.staging == staging,
            r.phase is NotStarted,
            r.worker_reported_error == false,
            r.stderr@ == Seq::<String>::empty(),
    {
        RunSupervisor {
            prefix,
            key,
            corr,
            staging,
            phase: Phase::NotStarted,
            worker_reported_error: false,
            stderr: Vec::new(),
        }
    }

    /// Feeds one observation to the supervisor and returns the actions it
    /// obliges, in order.
    pub fn on_event(&mut self, ev: WorkerEvent) -> (out: Vec<Action>)
        ensures
            step_ok(*old(self), ev, *final(self), out@),
    {
        let mut out: Vec<Action> = Vec::new();
        match ev {
            WorkerEvent::Spawned { pid } => {
                match self.phase {
                    Phase::NotStarted => {
                        self.phase = Phase::Streaming;
                        match &self.key {
                            Some(k) => {
                                out.push(Action::Register { key: k.clone(), pid });
                            },
                            None => {},
                        }
                    },
                    _ => {},
                }
            },
            WorkerEvent::SpawnFailed { message } => {
                match self.phase {
                    Phase::NotStarted => {
                        self.phase = Phase::Done;
                        let output = self.output_step(Classification::Failed);
                        out.push(
                            Action::Conclude {
                                verdict: Verdict {
                                    class: Classification::Failed,
                                    already_reported: false,
                                    message,
                                },
                                output,
                            },
                        );
                    },
                    _ => {},
                }
            },
            WorkerEvent::StdoutLine { line } => {
                match self.phase {
                    Phase::Streaming => {
                        if line_reports_error(line.as_str()) {
                            self.worker_reported_error = true;
                        }
                        let corr = clone_opt_string(&self.corr);
                        let event = route_line(self.prefix.as_str(), line.as_str(), corr);
                        out.push(Action::Emit { event });
                    },
                    _ => {},
                }
            },
            WorkerEvent::StderrLine { line } => {
                match self.phase {
                    Phase::Streaming => {
                        self.stderr.push(line);
                    },
                    _ => {},
                }
            },
            WorkerEvent::Exited { code } => {
                match self.phase {
                    Phase::Streaming => {
                        self.phase = Phase::Done;
                        self.push_deregister(&mut out);
                        let class = classify_exit(code);
                        let message = match class {
                            Classification::Success => String::new(),
                            Classification::Cancelled => String::from_str(
                                "run stopped, incomplete output discarded",
                            ),
                            Classification::Failed => {
                                if self.worker_reported_error {
                                    String::new()
                                } else {
                                    synth_failure_message(code, &self.stderr)
                                }
                            },
                        };
                        let output = self.output_step(class);
                        out.push(
                            Action::Conclude {
                                verdict: Verdict {
                                    class,
                                    already_reported: self.worker_reported_error,
                                    message,
                                },
                                output,
                            },
                        );
                    },
                    _ => {},
                }
            },
            WorkerEvent::WaitFailed { message } => {
                match self.phase {
                    Phase::Streaming => {
                        self.phase = Phase::Done;
                        self.push_deregister(&mut out);
                        let output = self.output_step(Classification::Failed);
                        out.push(
                            Action::Conclude {
                                verdict: Verdict {
                                    class: Classification::Failed,
                                    already_reported: self.worker_reported_error,
                                    message,
                                },
                                output,
                            },
                        );
                    },
                    _ => {},
                }
            },
        }
        out
    }

    fn push_deregister(&self, out: &mut Vec<Action>)
        ensures
            (match self.key {
                Some(k) => final(out)@ == old(out)@.push(Action::Deregister { key: k }),
                None => final(out)@ == old(out)@,
            }),
    {
        match &self.key {
            Some(k) => {
                out.push(Action::Deregister { key: k.clone() });
            },
            None => {},
        }
    }

    fn output_step(&self, class: Classification) -> (r: OutputStep)
        ensures
            r == output_step_for(self.staging, class),
    {
        match &self.staging {
            None => OutputStep::Keep,
            Some(_) => match class {
                Classification::Success => OutputStep::Promote,
                _ => OutputStep::Discard,
            },
        }
    }
}

} // verus!
