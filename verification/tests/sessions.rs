use futures::channel::mpsc;
use runtimes::catalog::{RuntimeCatalog, RuntimeSpec};
use runtimes::manager::{AcquireOutcome, ExecuteError, RuntimeManager};
use runtimes::messages::{
    make_handshake_request, ExecutionId, ExecutionIdSource, RequestPayload, Update,
};

fn spec_for(language: &str, command: &str) -> RuntimeSpec {
    RuntimeSpec {
        language: language.to_string(),
        command: command.to_string(),
        args: vec!["-i".to_string()],
        env: vec![("LANG".to_string(), "C".to_string())],
    }
}

fn id(number: u64) -> ExecutionId {
    ExecutionId { number }
}

#[test]
fn catalog_finds_first_match() {
    let mut catalog = RuntimeCatalog::new();
    assert!(catalog.find("python").is_none());
    catalog.set(vec![
        spec_for("python", "python-a"),
        spec_for("ruby", "irb"),
        spec_for("python", "python-b"),
    ]);
    let found = catalog.find("python").expect("python spec");
    assert_eq!(found.command, "python-a");
    assert_eq!(found.language, "python");
    assert!(catalog.find("haskell").is_none());
    catalog.set(vec![spec_for("python", "python-b")]);
    assert_eq!(catalog.find("python").expect("python spec").command, "python-b");
}

#[test]
fn execution_ids_are_fresh_and_increasing() {
    let mut source = ExecutionIdSource::new();
    let a = source.mint();
    let b = source.mint();
    let c = source.mint();
    assert_eq!(a.number, 0);
    assert_eq!(b.number, 1);
    assert_eq!(c.number, 2);
}

#[test]
fn missing_runtime_rejected_without_launch() {
    let mut manager = RuntimeManager::new();
    let r = manager.execute(1, "python", id(1), "x".to_string());
    match r {
        Err(ExecuteError::RuntimeNotFound(language)) => assert_eq!(language, "python"),
        _ => panic!("expected RuntimeNotFound"),
    }
    assert!(!manager.is_kernel_running(1));
}

#[test]
fn acquire_rejects_missing_language_and_requests_launch_otherwise() {
    let mut manager = RuntimeManager::new();
    manager.set_runtimes(vec![spec_for("python", "python3")]);
    match manager.acquire_control_channel(1, "haskell") {
        Err(ExecuteError::RuntimeNotFound(language)) => assert_eq!(language, "haskell"),
        _ => panic!("expected RuntimeNotFound"),
    }
    match manager.acquire_control_channel(1, "python") {
        Ok(AcquireOutcome::MustLaunch(launch)) => {
            assert_eq!(launch.key, 1);
            assert_eq!(launch.spec.command, "python3");
        }
        _ => panic!("expected MustLaunch"),
    }
    match manager.acquire_control_channel(1, "python") {
        Ok(AcquireOutcome::AlreadyLaunching) => {}
        _ => panic!("expected AlreadyLaunching"),
    }
}

#[test]
fn execute_launches_submits_and_stream_closes() {
    let mut manager = RuntimeManager::new();
    manager.set_runtimes(vec![spec_for("python", "python3")]);

    let mut ticket = manager
        .execute(7, "python", id(1), "1+1".to_string())
        .expect("execution accepted");
    let launch = ticket.launch.take().expect("a launch to drive");
    assert_eq!(launch.key, 7);
    assert_eq!(launch.spec.language, "python");

    // The process collaborator side: a live control channel.
    let (control_tx, mut control_rx) = mpsc::unbounded();

    // Best-effort handshake before the session is installed; no reply will
    // come, which must not fail the acquisition.
    let (handshake, mut handshake_rx) = make_handshake_request(id(99));
    control_tx.unbounded_send(handshake).expect("open channel");
    assert!(handshake_rx.try_next().is_err(), "no reply yet, stream still open");

    let outcomes = manager.launch_completed(7, control_tx, 4242, false);
    assert_eq!(outcomes.len(), 1);
    assert_eq!(outcomes[0].0, id(1));
    assert!(outcomes[0].1);
    assert!(manager.is_kernel_running(7));

    // The kernel sees the handshake and then the queued execution.
    let first = control_rx.try_next().unwrap().expect("handshake request");
    assert!(matches!(first.payload, RequestPayload::KernelInfo));
    let second = control_rx.try_next().unwrap().expect("queued execution");
    assert_eq!(second.execution_id, id(1));
    match &second.payload {
        RequestPayload::Execute { code } => assert_eq!(code, "1+1"),
        _ => panic!("expected an execute payload"),
    }

    // The kernel answers nothing and closes the request's sink: the
    // caller's stream ends after zero updates.
    drop(second);
    match ticket.updates.try_next() {
        Ok(None) => {}
        _ => panic!("expected the update stream to be closed"),
    }
}

#[test]
fn concurrent_executes_cause_exactly_one_launch() {
    let mut manager = RuntimeManager::new();
    manager.set_runtimes(vec![spec_for("python", "python3")]);

    let first = manager
        .execute(3, "python", id(1), "a".to_string())
        .expect("first execution accepted");
    assert!(first.launch.is_some(), "first call drives the launch");

    let second = manager
        .execute(3, "python", id(2), "b".to_string())
        .expect("second execution accepted");
    assert!(second.launch.is_none(), "second call joins the in-flight launch");

    let (control_tx, mut control_rx) = mpsc::unbounded();
    let outcomes = manager.launch_completed(3, control_tx, 1, true);
    assert_eq!(outcomes.len(), 2);
    assert_eq!(outcomes[0].0, id(1));
    assert_eq!(outcomes[1].0, id(2));
    assert!(outcomes[0].1 && outcomes[1].1);

    // Both requests reached the one kernel, in submission order.
    let a = control_rx.try_next().unwrap().expect("first request");
    let b = control_rx.try_next().unwrap().expect("second request");
    assert_eq!(a.execution_id, id(1));
    assert_eq!(b.execution_id, id(2));
    assert!(control_rx.try_next().is_err(), "no third submission");
}

#[test]
fn handshake_timeout_and_reply_install_the_same_session() {
    for replied in [false, true] {
        let mut manager = RuntimeManager::new();
        manager.set_runtimes(vec![spec_for("python", "python3")]);
        let ticket = manager
            .execute(9, "python", id(1), "x".to_string())
            .expect("execution accepted");
        assert!(ticket.launch.is_some());
        let (control_tx, _control_rx) = mpsc::unbounded();
        manager.launch_completed(9, control_tx, 2, replied);
        assert!(
            manager.is_kernel_running(9),
            "session usable whether or not the handshake replied"
        );
    }
}

#[test]
fn live_session_reused_for_other_language() {
    let mut manager = RuntimeManager::new();
    manager.set_runtimes(vec![spec_for("python", "python3"), spec_for("ruby", "irb")]);

    let ticket = manager
        .execute(5, "python", id(1), "x".to_string())
        .expect("execution accepted");
    let (control_tx, mut control_rx) = mpsc::unbounded();
    assert!(ticket.launch.is_some());
    manager.launch_completed(5, control_tx, 3, true);
    control_rx.try_next().unwrap().expect("queued python request");

    // A ruby spec exists, but the session for key 5 is already live: it is
    // reused no matter which language the new request names.
    let reused = manager
        .execute(5, "ruby", id(2), "y".to_string())
        .expect("submission on the live session");
    assert!(reused.launch.is_none(), "no second launch for the key");
    let submitted = control_rx.try_next().unwrap().expect("request on the python session");
    assert_eq!(submitted.execution_id, id(2));
}

#[test]
fn updates_reach_only_their_own_request() {
    let mut manager = RuntimeManager::new();
    manager.set_runtimes(vec![spec_for("python", "python3")]);
    let t0 = manager
        .execute(2, "python", id(10), "first".to_string())
        .expect("execution accepted");
    assert!(t0.launch.is_some());
    let (control_tx, mut control_rx) = mpsc::unbounded();
    manager.launch_completed(2, control_tx, 11, true);
    let req1 = control_rx.try_next().unwrap().expect("first request");

    let mut t2 = manager
        .execute(2, "python", id(20), "second".to_string())
        .expect("execution accepted");
    let req2 = control_rx.try_next().unwrap().expect("second request");
    assert_eq!(req1.execution_id, id(10));
    assert_eq!(req2.execution_id, id(20));

    // The kernel answers each request on that request's own sink.
    req1.iopub_sender
        .unbounded_send(Update { execution_id: id(10), content: "2".to_string() })
        .unwrap();
    req2.iopub_sender
        .unbounded_send(Update { execution_id: id(20), content: "4".to_string() })
        .unwrap();
    drop(req1);
    drop(req2);

    let mut t1 = t0;
    let u1 = t1.updates.try_next().unwrap().expect("first stream's update");
    assert_eq!(u1.execution_id, id(10));
    assert_eq!(u1.content, "2");
    assert!(matches!(t1.updates.try_next(), Ok(None)), "first stream closed, nothing crossed");

    let u2 = t2.updates.try_next().unwrap().expect("second stream's update");
    assert_eq!(u2.execution_id, id(20));
    assert_eq!(u2.content, "4");
    assert!(matches!(t2.updates.try_next(), Ok(None)), "second stream closed, nothing crossed");
}

#[test]
fn submission_on_dead_kernel_fails_without_retry() {
    let mut manager = RuntimeManager::new();
    manager.set_runtimes(vec![spec_for("python", "python3")]);
    let ticket = manager
        .execute(4, "python", id(1), "x".to_string())
        .expect("execution accepted");
    assert!(ticket.launch.is_some());
    let (control_tx, control_rx) = mpsc::unbounded();
    manager.launch_completed(4, control_tx, 8, true);

    // The kernel dies: its end of the control channel is gone.
    drop(control_rx);
    match manager.execute(4, "python", id(2), "y".to_string()) {
        Err(ExecuteError::SubmissionFailed) => {}
        _ => panic!("expected SubmissionFailed"),
    }
    // The stale entry stays until an external signal removes it.
    assert!(manager.is_kernel_running(4));
}

#[test]
fn launch_failure_clears_the_slot_and_next_call_retries() {
    let mut manager = RuntimeManager::new();
    manager.set_runtimes(vec![spec_for("python", "python3")]);
    let ticket = manager
        .execute(6, "python", id(1), "x".to_string())
        .expect("execution accepted");
    assert!(ticket.launch.is_some());

    let abandoned = manager.launch_failed(6);
    assert_eq!(abandoned.len(), 1);
    assert_eq!(abandoned[0].execution_id, id(1));
    assert!(!manager.is_kernel_running(6));

    // No failure state is cached: the next call starts a fresh launch.
    let retry = manager
        .execute(6, "python", id(2), "x".to_string())
        .expect("retry accepted");
    assert!(retry.launch.is_some());
}

#[test]
fn remove_session_is_safe_without_one_and_returns_the_process() {
    let mut manager = RuntimeManager::new();
    assert_eq!(manager.remove_session(1), None);

    manager.set_runtimes(vec![spec_for("python", "python3")]);
    let ticket = manager
        .execute(1, "python", id(1), "x".to_string())
        .expect("execution accepted");
    assert!(ticket.launch.is_some());
    let (control_tx, _control_rx) = mpsc::unbounded();
    manager.launch_completed(1, control_tx, 77, true);
    assert!(manager.is_kernel_running(1));

    assert_eq!(manager.remove_session(1), Some(77));
    assert!(!manager.is_kernel_running(1));
    assert_eq!(manager.remove_session(1), None);
}
