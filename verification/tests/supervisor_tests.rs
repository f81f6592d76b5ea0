use courtyard_core::events::Payload;
use courtyard_core::exit::Classification;
use courtyard_core::outdir::OutputRoot;
use courtyard_core::registry::KeyedRegistry;
use courtyard_core::supervisor::{Action, OutputStep, RunSupervisor, WorkerEvent};

fn supervisor_with_staging(prefix: &str, staging: &str) -> RunSupervisor {
    RunSupervisor::new_run(
        String::from(prefix),
        None,
        None,
        Some(String::from(staging)),
    )
}

fn conclude_count(batches: &[Vec<Action>]) -> usize {
    batches
        .iter()
        .flatten()
        .filter(|a| matches!(a, Action::Conclude { .. }))
        .count()
}

#[test]
fn one_terminal_outcome_after_the_stream_is_drained() {
    let mut sup = supervisor_with_staging("dataset", "20250101_000000");
    let mut batches = Vec::new();
    batches.push(sup.on_event(WorkerEvent::Spawned { pid: 77 }));
    batches.push(sup.on_event(WorkerEvent::StdoutLine {
        line: String::from("{\"type\":\"progress\",\"pct\":10}"),
    }));
    batches.push(sup.on_event(WorkerEvent::StderrLine { line: String::from("note") }));
    batches.push(sup.on_event(WorkerEvent::StdoutLine {
        line: String::from("halfway there"),
    }));
    batches.push(sup.on_event(WorkerEvent::Exited { code: Some(0) }));
    assert_eq!(conclude_count(&batches), 1);
    // the conclusion is in the final batch, after every forwarded line
    assert!(batches[4].iter().any(|a| matches!(a, Action::Conclude { .. })));
    // a late, spurious event after the run is done obliges nothing
    let late = sup.on_event(WorkerEvent::Exited { code: Some(1) });
    assert!(late.is_empty());
    assert_eq!(conclude_count(&batches), 1);
}

#[test]
fn success_scenario_promotes_and_reports_the_new_version() {
    let mut sup = supervisor_with_staging("dataset", "20250101_000000");
    sup.on_event(WorkerEvent::Spawned { pid: 41 });
    let batch = sup.on_event(WorkerEvent::Exited { code: Some(0) });
    assert_eq!(batch.len(), 1);
    match &batch[0] {
        Action::Conclude { verdict, output } => {
            assert_eq!(verdict.class, Classification::Success);
            assert_eq!(*output, OutputStep::Promote);
        }
        _ => panic!("expected the conclusion"),
    }
    // the application mirrors the promote step onto the root
    let mut root = OutputRoot::new();
    root.allocate(String::from("20250101_000000"));
    let final_id = root.promote("20250101_000000", String::from("20250101_000512"), true);
    assert_eq!(final_id.as_str(), "20250101_000512");
    assert!(root.contains("20250101_000512"));
    assert!(!root.contains("20250101_000000"));
    let ev = courtyard_core::events::channel_of("dataset", "version");
    assert_eq!(ev.as_str(), "dataset:version");
}

#[test]
fn user_stop_scenario_discards_and_reports_stopped() {
    let mut reg = KeyedRegistry::new();
    let mut sup = RunSupervisor::new_run(
        String::from("dataset"),
        Some(String::from("generation")),
        None,
        Some(String::from("20250101_000000")),
    );
    let batch = sup.on_event(WorkerEvent::Spawned { pid: 9001 });
    match &batch[0] {
        Action::Register { key, pid } => {
            assert_eq!(key.as_str(), "generation");
            reg.register(key.clone(), *pid);
        }
        _ => panic!("expected registration"),
    }
    // an out-of-band stop: both the group and the process get the signal
    let plan = reg.cancel("generation").ok().expect("the run is tracked");
    assert_eq!(plan.group_target, -9001);
    assert_eq!(plan.process_target, 9001);
    // the worker exits with the stop code
    let batch = sup.on_event(WorkerEvent::Exited { code: Some(143) });
    assert_eq!(batch.len(), 2);
    assert!(matches!(&batch[0], Action::Deregister { key } if key.as_str() == "generation"));
    match &batch[1] {
        Action::Conclude { verdict, output } => {
            assert_eq!(verdict.class, Classification::Cancelled);
            assert_eq!(*output, OutputStep::Discard);
            assert!(!verdict.message.is_empty());
        }
        _ => panic!("expected the conclusion"),
    }
    // deregistration of the already-cancelled key is a harmless no-op
    reg.deregister("generation");
}

#[test]
fn worker_reported_error_suppresses_the_generic_one() {
    let mut sup = RunSupervisor::new_run(String::from("export"), None, None, None);
    sup.on_event(WorkerEvent::Spawned { pid: 50 });
    let batch = sup.on_event(WorkerEvent::StdoutLine {
        line: String::from("{\"type\":\"error\",\"message\":\"disk full\"}"),
    });
    // the worker's own report is forwarded verbatim on its typed channel
    match &batch[0] {
        Action::Emit { event } => {
            assert_eq!(event.channel.as_str(), "export:error");
            match &event.payload {
                Payload::Record(s) => {
                    assert_eq!(s.as_str(), "{\"type\":\"error\",\"message\":\"disk full\"}")
                }
                _ => panic!("expected the record"),
            }
        }
        _ => panic!("expected the forwarded event"),
    }
    let batch = sup.on_event(WorkerEvent::Exited { code: Some(7) });
    match &batch[0] {
        Action::Conclude { verdict, .. } => {
            assert_eq!(verdict.class, Classification::Failed);
            assert!(verdict.already_reported);
        }
        _ => panic!("expected the conclusion"),
    }
}

#[test]
fn unreported_failure_synthesizes_from_the_stderr_tail() {
    let mut sup = RunSupervisor::new_run(String::from("export"), None, None, None);
    sup.on_event(WorkerEvent::Spawned { pid: 50 });
    sup.on_event(WorkerEvent::StderrLine { line: String::from("traceback begins") });
    sup.on_event(WorkerEvent::StderrLine { line: String::from("it was the disk") });
    let batch = sup.on_event(WorkerEvent::Exited { code: Some(7) });
    match &batch[0] {
        Action::Conclude { verdict, .. } => {
            assert_eq!(verdict.class, Classification::Failed);
            assert!(!verdict.already_reported);
            assert_eq!(verdict.message.as_str(), "traceback begins\nit was the disk");
        }
        _ => panic!("expected the conclusion"),
    }
}

#[test]
fn failure_with_silent_worker_names_the_exit_code() {
    let mut sup = RunSupervisor::new_run(String::from("cleaning"), None, None, None);
    sup.on_event(WorkerEvent::Spawned { pid: 50 });
    let batch = sup.on_event(WorkerEvent::Exited { code: Some(3) });
    match &batch[0] {
        Action::Conclude { verdict, .. } => {
            assert_eq!(verdict.message.as_str(), "worker exited with code 3");
        }
        _ => panic!("expected the conclusion"),
    }
}

#[test]
fn spawn_failure_concludes_without_registry_cleanup() {
    let mut sup = RunSupervisor::new_run(
        String::from("dataset"),
        Some(String::from("generation")),
        None,
        Some(String::from("20250101_000000")),
    );
    let batch = sup.on_event(WorkerEvent::SpawnFailed {
        message: String::from("No such file or directory"),
    });
    assert_eq!(batch.len(), 1);
    match &batch[0] {
        Action::Conclude { verdict, output } => {
            assert_eq!(verdict.class, Classification::Failed);
            assert!(!verdict.already_reported);
            assert_eq!(verdict.message.as_str(), "No such file or directory");
            assert_eq!(*output, OutputStep::Discard);
        }
        _ => panic!("expected the conclusion"),
    }
}

#[test]
fn runs_without_output_directory_keep_nothing() {
    let mut sup = RunSupervisor::new_run(String::from("inference"), None, None, None);
    sup.on_event(WorkerEvent::Spawned { pid: 5 });
    let batch = sup.on_event(WorkerEvent::Exited { code: Some(0) });
    match &batch[0] {
        Action::Conclude { output, .. } => assert_eq!(*output, OutputStep::Keep),
        _ => panic!("expected the conclusion"),
    }
}

#[test]
fn wait_failure_deregisters_and_fails() {
    let mut sup = RunSupervisor::new_run(
        String::from("download"),
        Some(String::from("org/model-a")),
        None,
        None,
    );
    sup.on_event(WorkerEvent::Spawned { pid: 5 });
    let batch = sup.on_event(WorkerEvent::WaitFailed { message: String::from("interrupted") });
    assert_eq!(batch.len(), 2);
    assert!(matches!(&batch[0], Action::Deregister { key } if key.as_str() == "org/model-a"));
    match &batch[1] {
        Action::Conclude { verdict, .. } => {
            assert_eq!(verdict.class, Classification::Failed);
            assert_eq!(verdict.message.as_str(), "interrupted");
        }
        _ => panic!("expected the conclusion"),
    }
}
