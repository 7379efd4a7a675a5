use shim::container::{ExitStatus, WaitHandle};
use shim::runtime::{ContainerError, RunOutcome};
use shim::service::{CreateTaskRequest, ServiceError, StepOutcome, TaskService};
use shim::signal::{reap_step, ReapResult, ESRCH};
use shim::socket::{socket_address, socket_path};
use shim::timestamp::Timestamp;
use shim::Status;

fn request(id: &str, bundle: &str) -> CreateTaskRequest {
    CreateTaskRequest {
        id: id.to_string(),
        bundle: bundle.to_string(),
        stdout: format!("{}/out", bundle),
        stderr: format!("{}/err", bundle),
    }
}

#[test]
fn happy_path() {
    let path = socket_path("abc");
    assert!(path.starts_with("/run/shim/") && path.ends_with(".sock"));
    assert_eq!(socket_address(&path), format!("unix://{}", path));

    let mut s = TaskService::new("/bin/true-ish");
    let call = s.create(&request("abc", "/tmp/b1")).unwrap();
    assert_eq!(call.stdout.as_deref(), Some("/tmp/b1/out"));
    assert_eq!(call.stderr.as_deref(), Some("/tmp/b1/err"));
    assert_eq!(s.create_done("abc", RunOutcome::Exited(0), Some("1234")), Ok(1234));
    s.start("abc").unwrap();
    assert_eq!(s.start_done("abc", RunOutcome::Exited(0)), Ok(1234));
    let step = reap_step(ReapResult::Exited { pid: 1234, code: 0 });
    let at = Timestamp { seconds: 1_700_000_000, nanos: 5 };
    s.set_exited_at(step.event.unwrap(), at).unwrap();
    assert_eq!(
        s.wait("abc", 1),
        Ok(WaitHandle::Ready(ExitStatus { exit_status: 0, exited_at: Some(at) }))
    );
    s.delete("abc").unwrap();
    assert_eq!(s.delete_done("abc", RunOutcome::Exited(0)).unwrap().pid, 1234);
    assert!(s.shutdown().is_empty());
    assert_eq!(s.shutdown_done(&Vec::new()), Ok(()));
    assert!(s.exit_requested());
}

#[test]
fn signal_death() {
    let mut s = TaskService::new("/rt");
    s.create(&request("sig", "/tmp/b2")).unwrap();
    s.create_done("sig", RunOutcome::Exited(0), Some("555")).unwrap();
    s.start_done("sig", RunOutcome::Exited(0)).unwrap();
    let step = reap_step(ReapResult::Signaled { pid: 555, signal: 9 });
    let notice = s.set_exited_at(step.event.unwrap(), Timestamp { seconds: 3, nanos: 0 }).unwrap();
    assert_eq!(notice.record.exit_status, 137);
    match s.wait("sig", 1).unwrap() {
        WaitHandle::Ready(r) => assert_eq!(r.exit_status, 137),
        WaitHandle::Pending => panic!("container stopped"),
    }
}

#[test]
fn duplicate_create() {
    let mut s = TaskService::new("/rt");
    s.create(&request("dup", "/tmp/b3")).unwrap();
    assert_eq!(s.create_done("dup", RunOutcome::Exited(0), Some("77")), Ok(77));
    assert_eq!(s.create(&request("dup", "/tmp/other")).unwrap_err(), ServiceError::AlreadyExists);
    assert_eq!(s.len(), 1);
    assert_eq!(s.kill("dup", 15).unwrap().pid, 77);
}

#[test]
fn duplicate_create_while_first_in_flight() {
    let mut s = TaskService::new("/rt");
    s.create(&request("dup", "/tmp/b3")).unwrap();
    assert_eq!(s.create(&request("dup", "/tmp/b3")).unwrap_err(), ServiceError::AlreadyExists);
    assert_eq!(s.len(), 1);
}

#[test]
fn kill_after_exit() {
    let mut s = TaskService::new("/rt");
    s.create(&request("k", "/tmp/b4")).unwrap();
    s.create_done("k", RunOutcome::Exited(0), Some("88")).unwrap();
    s.start_done("k", RunOutcome::Exited(0)).unwrap();
    let step = reap_step(ReapResult::Exited { pid: 88, code: 0 });
    s.set_exited_at(step.event.unwrap(), Timestamp { seconds: 4, nanos: 0 }).unwrap();
    let order = s.kill("k", 15).unwrap();
    assert_eq!(order.signal, 15);
    assert_eq!(TaskService::kill_done(Err(ESRCH)), Ok(()));
}

#[test]
fn wait_races_exit() {
    let mut s = TaskService::new("/rt");
    s.create(&request("w", "/tmp/b5")).unwrap();
    s.create_done("w", RunOutcome::Exited(0), Some("99")).unwrap();
    s.start_done("w", RunOutcome::Exited(0)).unwrap();
    assert_eq!(s.wait("w", 17), Ok(WaitHandle::Pending));
    let step = reap_step(ReapResult::Exited { pid: 99, code: 42 });
    let notice = s.set_exited_at(step.event.unwrap(), Timestamp { seconds: 5, nanos: 0 }).unwrap();
    assert_eq!(notice.waiters, vec![17]);
    assert_eq!(notice.record.exit_status, 42);
    assert_eq!(s.wait("w", 18), Ok(WaitHandle::Ready(notice.record)));
}

#[test]
fn status_never_leaves_stopped() {
    let mut s = TaskService::new("/rt");
    s.create(&request("m", "/tmp/b6")).unwrap();
    s.create_done("m", RunOutcome::Exited(0), Some("61")).unwrap();
    s.set_exited_at(shim::signal::ExitEvent { pid: 61, exit_code: 2 }, Timestamp { seconds: 6, nanos: 0 }).unwrap();
    assert_eq!(s.start("m").unwrap_err(), ServiceError::Internal(ContainerError::InvalidState));
    assert_eq!(
        s.start_done("m", RunOutcome::Exited(0)),
        Err(ServiceError::Internal(ContainerError::InvalidState))
    );
    let steps = s.shutdown();
    assert_eq!(steps[0].kill, None);
    let _ = Status::STOPPED;
    assert_eq!(
        s.shutdown_done(&vec![StepOutcome { kill: None, delete: Some(RunOutcome::Exited(0)) }]),
        Ok(())
    );
}
