use shim::signal::{forward_signal, is_valid_signal, reap_step, ExitEvent, ReapResult, ReapStep, ESRCH};

#[test]
fn reap_exited_child_reports_status() {
    assert_eq!(
        reap_step(ReapResult::Exited { pid: 10, code: 3 }),
        ReapStep { event: Some(ExitEvent { pid: 10, exit_code: 3 }), again: true }
    );
}

#[test]
fn reap_signaled_child_reports_128_plus_signal() {
    assert_eq!(
        reap_step(ReapResult::Signaled { pid: 11, signal: 9 }),
        ReapStep { event: Some(ExitEvent { pid: 11, exit_code: 137 }), again: true }
    );
    assert_eq!(reap_step(ReapResult::Signaled { pid: 11, signal: 255 }).event.unwrap().exit_code, 383);
}

#[test]
fn reap_stops_when_drained() {
    assert_eq!(reap_step(ReapResult::StillAlive), ReapStep { event: None, again: false });
    assert_eq!(reap_step(ReapResult::NoChildren), ReapStep { event: None, again: false });
    assert_eq!(reap_step(ReapResult::Failed), ReapStep { event: None, again: false });
    assert_eq!(reap_step(ReapResult::OtherStatus), ReapStep { event: None, again: true });
}

#[test]
fn forward_signal_swallows_no_such_process() {
    assert_eq!(forward_signal(Ok(())), Ok(()));
    assert_eq!(forward_signal(Err(ESRCH)), Ok(()));
    assert_eq!(forward_signal(Err(1)), Err(1));
}

#[test]
fn valid_signal_numbers() {
    assert!(is_valid_signal(1));
    assert!(is_valid_signal(9));
    assert!(is_valid_signal(15));
    assert!(is_valid_signal(31));
    assert!(!is_valid_signal(0));
    assert!(!is_valid_signal(32));
    assert!(!is_valid_signal(64));
    assert!(!is_valid_signal(u32::MAX));
}
