use g910::device::{
    acquire_steps, due_handlers, interrupt_reads, loop_timeout, on_loop_error, release_steps,
    should_resubmit, sleep_remaining, InterruptRead, KernelDrivers, LoopAction, Reconnection,
    UsbStep, FOREVER_MS,
};
use g910::error::Error;

#[test]
fn completions_resubmitted_except_control() {
    assert!(!should_resubmit(0x80));
    assert!(should_resubmit(0x81));
    assert!(should_resubmit(0x82));
}

#[test]
fn long_lived_reads() {
    let r = interrupt_reads();
    assert_eq!(
        r,
        vec![
            InterruptRead { endpoint: 0x81, len: 8, timeout_ms: FOREVER_MS },
            InterruptRead { endpoint: 0x82, len: 64, timeout_ms: FOREVER_MS },
        ]
    );
    assert!(FOREVER_MS >= 365 * 24 * 3600 * 1000);
}

#[test]
fn teardown_restores_kernel_drivers() {
    let d = KernelDrivers { interface0: true, interface1: false };
    let steps = release_steps(d);
    assert_eq!(
        steps,
        vec![UsbStep::ReleaseInterface(1), UsbStep::ReleaseInterface(0), UsbStep::AttachKernelDriver(0)]
    );
    assert!(!steps.contains(&UsbStep::AttachKernelDriver(1)));
}

#[test]
fn teardown_both_and_neither() {
    let both = release_steps(KernelDrivers { interface0: true, interface1: true });
    assert_eq!(both.len(), 4);
    assert_eq!(both[2], UsbStep::AttachKernelDriver(1));
    assert_eq!(both[3], UsbStep::AttachKernelDriver(0));
    let none = release_steps(KernelDrivers { interface0: false, interface1: false });
    assert_eq!(none, vec![UsbStep::ReleaseInterface(1), UsbStep::ReleaseInterface(0)]);
}

#[test]
fn acquire_plan() {
    let steps = acquire_steps(KernelDrivers { interface0: false, interface1: true });
    assert_eq!(
        steps,
        vec![
            UsbStep::DetachKernelDriver(1),
            UsbStep::ClaimInterface(0),
            UsbStep::ClaimInterface(1),
            UsbStep::Reset,
        ]
    );
}

#[test]
fn timeouts() {
    assert_eq!(sleep_remaining(100, 30), 70);
    assert_eq!(sleep_remaining(100, 100), 0);
    assert_eq!(sleep_remaining(100, 150), 0);
    assert_eq!(loop_timeout(&vec![]), FOREVER_MS);
    assert_eq!(loop_timeout(&vec![None, None]), FOREVER_MS);
    assert_eq!(loop_timeout(&vec![Some(50), None, Some(20), Some(70)]), 20);
    assert_eq!(due_handlers(&vec![Some(0), None, Some(5), Some(0)]), vec![0, 3]);
    assert!(due_handlers(&vec![None, Some(1)]).is_empty());
}

#[test]
fn loop_error_policy() {
    assert_eq!(on_loop_error(Error::Io, true), LoopAction::Reconnect);
    assert_eq!(on_loop_error(Error::Busy, true), LoopAction::Reconnect);
    assert_eq!(on_loop_error(Error::DeviceAbsent, true), LoopAction::Reconnect);
    assert_eq!(on_loop_error(Error::UnknownControl, true), LoopAction::Stop(Error::UnknownControl));
    assert_eq!(on_loop_error(Error::Io, false), LoopAction::Stop(Error::Io));
}

/// The session loop driven by scripted outcomes: each `Err` of an iteration
/// triggers a reconnection, whose attempts follow the scripted results.
fn run_loop(iterations: &[Result<(), Error>], reconnects: &[Result<(), Error>]) -> (usize, Result<(), Error>) {
    let mut attempts = 0usize;
    let mut script = reconnects.iter();
    for outcome in iterations {
        if let Err(e) = outcome {
            match on_loop_error(*e, true) {
                LoopAction::Reconnect => {
                    let mut rc = Reconnection::new(10);
                    let mut ok = false;
                    while rc.may_attempt() {
                        attempts += 1;
                        match script.next().copied().unwrap_or(Ok(())) {
                            Ok(()) => {
                                ok = true;
                                break;
                            }
                            Err(e) => rc.record_failure(e),
                        }
                    }
                    if !ok {
                        return (attempts, Err(rc.failure()));
                    }
                }
                LoopAction::Stop(e) => return (attempts, Err(e)),
            }
        }
    }
    (attempts, Ok(()))
}

#[test]
fn reconnect_control_loop() {
    let (attempts, r) = run_loop(&[Err(Error::Io), Err(Error::Io), Err(Error::Io), Ok(())], &[]);
    assert_eq!(attempts, 3);
    assert_eq!(r, Ok(()));
}

#[test]
fn reconnect_exhausted_reports_last_error() {
    let mut rc = Reconnection::new(2);
    assert!(rc.may_attempt());
    rc.record_failure(Error::Io);
    assert!(rc.may_attempt());
    rc.record_failure(Error::DeviceAbsent);
    assert!(!rc.may_attempt());
    assert_eq!(rc.failure(), Error::DeviceAbsent);
    let none = Reconnection::new(0);
    assert!(!none.may_attempt());
    assert_eq!(none.failure(), Error::ReconnectExhausted);
    assert!(!Reconnection::new(-3).may_attempt());
}
