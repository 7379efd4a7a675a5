use shim::container::{ExitStatus, WaitHandle};
use shim::runtime::{ContainerError, RunOutcome};
use shim::service::{Code, CreateTaskRequest, ServiceError, StepOutcome, TaskService};
use shim::signal::{ExitEvent, SignalOrder, ESRCH, SIGTERM};
use shim::timestamp::Timestamp;

fn request(id: &str) -> CreateTaskRequest {
    CreateTaskRequest {
        id: id.to_string(),
        bundle: "/tmp/b1".to_string(),
        stdout: "/tmp/b1/out".to_string(),
        stderr: "/tmp/b1/err".to_string(),
    }
}

fn with_created(id: &str, pid: &str) -> TaskService {
    let mut s = TaskService::new("/usr/sbin/runc");
    s.create(&request(id)).unwrap();
    s.create_done(id, RunOutcome::Exited(0), Some(pid)).unwrap();
    s
}

#[test]
fn create_call_routes_stdio_to_files() {
    let mut s = TaskService::new("/usr/sbin/runc");
    let call = s.create(&request("abc")).unwrap();
    assert_eq!(call.program, "/usr/sbin/runc");
    assert_eq!(call.args, vec!["create", "--bundle", "/tmp/b1", "--pid-file", "/tmp/b1/container.pid", "abc"]);
    assert_eq!(call.stdout.as_deref(), Some("/tmp/b1/out"));
    assert_eq!(call.stderr.as_deref(), Some("/tmp/b1/err"));
    assert_eq!(s.len(), 1);
}

#[test]
fn create_done_returns_pid() {
    let mut s = TaskService::new("/rt");
    s.create(&request("abc")).unwrap();
    assert_eq!(s.create_done("abc", RunOutcome::Exited(0), Some("99")), Ok(99));
}

#[test]
fn failed_create_releases_id() {
    let mut s = TaskService::new("/rt");
    s.create(&request("abc")).unwrap();
    assert_eq!(
        s.create_done("abc", RunOutcome::Exited(1), None),
        Err(ServiceError::Internal(ContainerError::RuntimeExited(1)))
    );
    assert_eq!(s.len(), 0);
    assert!(s.create(&request("abc")).is_ok());
    assert_eq!(s.create_done("abc", RunOutcome::Exited(0), Some("junk")), Err(ServiceError::Internal(ContainerError::BadPidFile)));
    assert_eq!(s.len(), 0);
}

#[test]
fn create_done_unknown_id_not_found() {
    let mut s = TaskService::new("/rt");
    assert_eq!(s.create_done("nope", RunOutcome::Exited(0), Some("1")), Err(ServiceError::NotFound));
}

#[test]
fn container_being_created_is_not_visible() {
    let mut s = TaskService::new("/rt");
    s.create(&request("abc")).unwrap();
    assert_eq!(s.start("abc").unwrap_err(), ServiceError::NotFound);
    assert_eq!(s.kill("abc", 15), Err(ServiceError::NotFound));
    assert_eq!(s.wait("abc", 1), Err(ServiceError::NotFound));
    assert_eq!(s.delete("abc").unwrap_err(), ServiceError::NotFound);
}

#[test]
fn start_and_start_done() {
    let mut s = with_created("abc", "42");
    let call = s.start("abc").unwrap();
    assert_eq!(call.args, vec!["start", "abc"]);
    assert_eq!(call.stdout, None);
    assert_eq!(call.stderr, None);
    assert_eq!(s.start_done("abc", RunOutcome::Exited(0)), Ok(42));
    assert_eq!(s.start("abc").unwrap_err(), ServiceError::Internal(ContainerError::InvalidState));
}

#[test]
fn start_runtime_failure_is_internal() {
    let mut s = with_created("abc", "42");
    assert_eq!(
        s.start_done("abc", RunOutcome::Signaled(6)),
        Err(ServiceError::Internal(ContainerError::RuntimeSignaled(6)))
    );
    assert!(s.start("abc").is_ok());
}

#[test]
fn unknown_ids_are_not_found() {
    let mut s = with_created("abc", "42");
    assert_eq!(s.start("x").unwrap_err(), ServiceError::NotFound);
    assert_eq!(s.start_done("x", RunOutcome::Exited(0)), Err(ServiceError::NotFound));
    assert_eq!(s.delete("x").unwrap_err(), ServiceError::NotFound);
    assert_eq!(s.delete_done("x", RunOutcome::Exited(0)).unwrap_err(), ServiceError::NotFound);
    assert_eq!(s.kill("x", 9), Err(ServiceError::NotFound));
    assert_eq!(s.wait("x", 1), Err(ServiceError::NotFound));
}

#[test]
fn kill_validates_signal() {
    let s = with_created("abc", "42");
    assert_eq!(s.kill("abc", 9), Ok(SignalOrder { pid: 42, signal: 9 }));
    assert_eq!(s.kill("abc", 0), Err(ServiceError::InvalidArgument));
    assert_eq!(s.kill("abc", 65), Err(ServiceError::InvalidArgument));
    assert_eq!(s.kill("abc", 0x8000_000f), Err(ServiceError::InvalidArgument));
}

#[test]
fn kill_done_maps_errno() {
    assert_eq!(TaskService::kill_done(Ok(())), Ok(()));
    assert_eq!(TaskService::kill_done(Err(ESRCH)), Ok(()));
    assert_eq!(TaskService::kill_done(Err(1)), Err(ServiceError::Internal(ContainerError::SignalFailed(1))));
}

#[test]
fn delete_removes_and_returns_waiters() {
    let mut s = with_created("abc", "42");
    assert_eq!(s.wait("abc", 5), Ok(WaitHandle::Pending));
    let call = s.delete("abc").unwrap();
    assert_eq!(call.args, vec!["delete", "abc"]);
    assert_eq!(
        s.delete_done("abc", RunOutcome::Exited(1)).unwrap_err(),
        ServiceError::Internal(ContainerError::RuntimeExited(1))
    );
    assert_eq!(s.len(), 1);
    let deleted = s.delete_done("abc", RunOutcome::Exited(0)).unwrap();
    assert_eq!(deleted.pid, 42);
    assert_eq!(deleted.waiters, vec![5]);
    assert_eq!(s.len(), 0);
    assert_eq!(s.wait("abc", 6), Err(ServiceError::NotFound));
}

#[test]
fn exit_event_binds_to_container_by_pid() {
    let mut s = with_created("abc", "42");
    s.wait("abc", 1).unwrap();
    assert!(s.set_exited_at(ExitEvent { pid: 7, exit_code: 0 }, Timestamp { seconds: 1, nanos: 0 }).is_none());
    let notice = s.set_exited_at(ExitEvent { pid: 42, exit_code: 3 }, Timestamp { seconds: 9, nanos: 8 }).unwrap();
    assert_eq!(notice.record, ExitStatus { exit_status: 3, exited_at: Some(Timestamp { seconds: 9, nanos: 8 }) });
    assert_eq!(notice.waiters, vec![1]);
    assert!(s.set_exited_at(ExitEvent { pid: 42, exit_code: 4 }, Timestamp { seconds: 10, nanos: 0 }).is_none());
    assert_eq!(s.wait("abc", 2), Ok(WaitHandle::Ready(notice.record)));
}

#[test]
fn exit_event_uses_clock() {
    let mut s = with_created("abc", "42");
    let notice = s.set_exited(ExitEvent { pid: 42, exit_code: 0 }).unwrap();
    let stamp = notice.record.exited_at.unwrap();
    assert!(stamp.seconds > 1_600_000_000);
}

#[test]
fn terminal_signals_go_to_live_containers() {
    let mut s = with_created("a", "10");
    s.create(&request("b")).unwrap();
    s.create_done("b", RunOutcome::Exited(0), Some("20")).unwrap();
    s.create(&request("c")).unwrap();
    s.set_exited_at(ExitEvent { pid: 10, exit_code: 0 }, Timestamp { seconds: 1, nanos: 0 }).unwrap();
    assert_eq!(s.signal_targets(2), vec![SignalOrder { pid: 20, signal: 2 }]);
}

#[test]
fn shutdown_plan_and_completion() {
    let mut s = with_created("a", "10");
    s.create(&request("b")).unwrap();
    let steps = s.shutdown();
    assert_eq!(steps.len(), 2);
    assert_eq!(steps[0].kill, Some(SignalOrder { pid: 10, signal: SIGTERM }));
    assert_eq!(steps[0].delete.as_ref().unwrap().args, vec!["delete", "a"]);
    assert_eq!(steps[1].kill, None);
    assert!(steps[1].delete.is_none());
    let outcomes = vec![
        StepOutcome { kill: Some(Err(ESRCH)), delete: Some(RunOutcome::Exited(0)) },
        StepOutcome { kill: None, delete: None },
    ];
    assert_eq!(s.shutdown_done(&outcomes), Ok(()));
    assert_eq!(s.len(), 0);
    assert!(s.exit_requested());
}

#[test]
fn shutdown_reports_first_failure_and_still_exits() {
    let mut s = with_created("a", "10");
    let outcomes = vec![
        StepOutcome { kill: Some(Ok(())), delete: Some(RunOutcome::Exited(1)) },
        StepOutcome { kill: Some(Err(1)), delete: Some(RunOutcome::Exited(0)) },
    ];
    assert_eq!(s.shutdown_done(&outcomes), Err(ServiceError::Internal(ContainerError::RuntimeExited(1))));
    assert!(s.exit_requested());
    assert_eq!(s.len(), 0);
}

#[test]
fn shutdown_twice_is_harmless() {
    let mut s = with_created("a", "10");
    let outcomes = vec![StepOutcome { kill: Some(Err(1)), delete: Some(RunOutcome::Exited(0)) }];
    assert_eq!(s.shutdown_done(&outcomes), Err(ServiceError::Internal(ContainerError::SignalFailed(1))));
    assert!(s.shutdown().is_empty());
    assert_eq!(s.shutdown_done(&Vec::new()), Ok(()));
    assert!(s.exit_requested());
}

#[test]
fn error_codes() {
    assert_eq!(ServiceError::NotFound.code(), Code::NotFound);
    assert_eq!(ServiceError::AlreadyExists.code(), Code::AlreadyExists);
    assert_eq!(ServiceError::InvalidArgument.code(), Code::InvalidArgument);
    assert_eq!(ServiceError::Internal(ContainerError::InvalidState).code(), Code::Internal);
    assert_eq!(ServiceError::Aborted.code(), Code::Aborted);
}
