use vstd::prelude::*;

use crate::control::CONTROL_ENDPOINT;
use crate::error::Error;

verus! {

/// Interrupt-in endpoint of the standard keyboard interface.
pub const STANDARD_IN_ENDPOINT: u8 = 0x81;

/// Interrupt-in endpoint of the auxiliary interface (rollover, media, acks).
pub const AUX_IN_ENDPOINT: u8 = 0x82;

/// Buffer size of a standard report read.
pub const STANDARD_REPORT_LEN: usize = 8;

/// Buffer size of an auxiliary report read.
pub const AUX_REPORT_LEN: usize = 64;

/// A wait that stands for "no deadline": one year, in milliseconds.
pub const FOREVER_MS: u64 = 31_536_000_000;

/// A long-lived interrupt read that is resubmitted whenever it completes.
#[derive(Debug, Clone, Copy, PartialEq, Eq, Structural)]
pub struct InterruptRead {
    pub endpoint: u8,
    pub len: usize,
    pub timeout_ms: u64,
}

/// The reads armed after the device is acquired: the standard reports on
/// 0x81 (8 bytes), then the auxiliary reports on 0x82 (64 bytes).
pub open spec fn spec_interrupt_reads() -> Seq<InterruptRead> {
    seq![
        InterruptRead { endpoint: STANDARD_IN_ENDPOINT, len: STANDARD_REPORT_LEN, timeout_ms: FOREVER_MS },
        InterruptRead { endpoint: AUX_IN_ENDPOINT, len: AUX_REPORT_LEN, timeout_ms: FOREVER_MS },
    ]
}

pub fn interrupt_reads() -> (r: Vec<InterruptRead>)
    ensures
        r@ == spec_interrupt_reads(),
{
    let r = vec![
        InterruptRead {
            endpoint: STANDARD_IN_ENDPOINT,
            len: STANDARD_REPORT_LEN,
            timeout_ms: FOREVER_MS,
        },
        InterruptRead { endpoint: AUX_IN_ENDPOINT, len: AUX_REPORT_LEN, timeout_ms: FOREVER_MS },
    ];
    assert(r@ =~= spec_interrupt_reads());
    r
}

/// Whether a completed transfer is submitted again: the interrupt reads are,
/// the one-shot control writes on 0x80 are not.
pub fn should_resubmit(endpoint_direction: u8) -> (r: bool)
    ensures
        r == (endpoint_direction != CONTROL_ENDPOINT),
{
    endpoint_direction != CONTROL_ENDPOINT
}

/// One operation on the device handle.
#[derive(Debug, Clone, Copy, PartialEq, Eq, Structural)]
pub enum UsbStep {
    DetachKernelDriver(u8),
    ClaimInterface(u8),
    Reset,
    ReleaseInterface(u8),
    AttachKernelDriver(u8),
}

/// Which of interfaces 0 and 1 had a kernel driver attached when the device
/// was acquired.
#[derive(Debug, Clone, Copy, PartialEq, Eq, Structural)]
pub struct KernelDrivers {
    pub interface0: bool,
    pub interface1: bool,
}

/// Acquisition: detach the kernel driver of each interface that has one,
/// claim interfaces 0 and 1, reset the device.
pub open spec fn acquire_plan(d: KernelDrivers) -> Seq<UsbStep> {
    (if d.interface0 {
        seq![UsbStep::DetachKernelDriver(0)]
    } else {
        Seq::empty()
    }) + (if d.interface1 {
        seq![UsbStep::DetachKernelDriver(1)]
    } else {
        Seq::empty()
    }) + seq![UsbStep::ClaimInterface(0), UsbStep::ClaimInterface(1), UsbStep::Reset]
}

/// Teardown: release interfaces 1 and 0, then reattach the kernel driver of
/// each interface that had one.
pub open spec fn release_plan(d: KernelDrivers) -> Seq<UsbStep> {
    seq![UsbStep::ReleaseInterface(1), UsbStep::ReleaseInterface(0)] + (if d.interface1 {
        seq![UsbStep::AttachKernelDriver(1)]
    } else {
        Seq::empty()
    }) + (if d.interface0 {
        seq![UsbStep::AttachKernelDriver(0)]
    } else {
        Seq::empty()
    })
}

pub fn acquire_steps(d: KernelDrivers) -> (r: Vec<UsbStep>)
    ensures
        r@ == acquire_plan(d),
{
    let mut r: Vec<UsbStep> = Vec::new();
    if d.interface0 {
        r.push(UsbStep::DetachKernelDriver(0));
    }
    if d.interface1 {
        r.push(UsbStep::DetachKernelDriver(1));
    }
    r.push(UsbStep::ClaimInterface(0));
    r.push(UsbStep::ClaimInterface(1));
    r.push(UsbStep::Reset);
    assert(r@ =~= acquire_plan(d));
    r
}

pub fn release_steps(d: KernelDrivers) -> (r: Vec<UsbStep>)
    ensures
        r@ == release_plan(d),
{
    let mut r: Vec<UsbStep> = Vec::new();
    r.push(UsbStep::ReleaseInterface(1));
    r.push(UsbStep::ReleaseInterface(0));
    if d.interface1 {
        r.push(UsbStep::AttachKernelDriver(1));
    }
    if d.interface0 {
        r.push(UsbStep::AttachKernelDriver(0));
    }
    assert(r@ =~= release_plan(d));
    r
}

/// Teardown gives back exactly the kernel drivers that acquisition took:
/// it reattaches the driver of an interface if and only if one was attached
/// there before, and releases both claimed interfaces.
pub proof fn lemma_teardown_restores_drivers(d: KernelDrivers)
    ensures
        release_plan(d).contains(UsbStep::AttachKernelDriver(0)) <==> d.interface0,
        release_plan(d).contains(UsbStep::AttachKernelDriver(1)) <==> d.interface1,
        acquire_plan(d).contains(UsbStep::DetachKernelDriver(0)) <==> d.interface0,
        acquire_plan(d).contains(UsbStep::DetachKernelDriver(1)) <==> d.interface1,
        release_plan(d).contains(UsbStep::ReleaseInterface(0)),
        release_plan(d).contains(UsbStep::ReleaseInterface(1)),
{
    let r = release_plan(d);
    let a = acquire_plan(d);
    assert(r[0] == UsbStep::ReleaseInterface(1));
    assert(r[1] == UsbStep::ReleaseInterface(0));
    if d.interface1 {
        assert(r[2] == UsbStep::AttachKernelDriver(1));
        if d.interface0 {
            assert(r[3] == UsbStep::AttachKernelDriver(0));
        }
    } else if d.interface0 {
        assert(r[2] == UsbStep::AttachKernelDriver(0));
    }
    if d.interface0 {
        assert(a[0] == UsbStep::DetachKernelDriver(0));
        if d.interface1 {
            assert(a[1] == UsbStep::DetachKernelDriver(1));
        }
    } else if d.interface1 {
        assert(a[0] == UsbStep::DetachKernelDriver(1));
    }
    assert(!r.contains(UsbStep::AttachKernelDriver(0)) ==> !d.interface0);
    assert(!d.interface0 ==> !r.contains(UsbStep::AttachKernelDriver(0))) by {
        if !d.interface0 && r.contains(UsbStep::AttachKernelDriver(0)) {
            let t = choose|t: int| 0 <= t < r.len() && r[t] == UsbStep::AttachKernelDriver(0);
        }
    }
    assert(!d.interface1 ==> !r.contains(UsbStep::AttachKernelDriver(1))) by {
        if !d.interface1 && r.contains(UsbStep::AttachKernelDriver(1)) {
            let t = choose|t: int| 0 <= t < r.len() && r[t] == UsbStep::AttachKernelDriver(1);
        }
    }
    assert(!d.interface0 ==> !a.contains(UsbStep::DetachKernelDriver(0))) by {
        if !d.interface0 && a.contains(UsbStep::DetachKernelDriver(0)) {
            let t = choose|t: int| 0 <= t < a.len() && a[t] == UsbStep::DetachKernelDriver(0);
        }
    }
    assert(!d.interface1 ==> !a.contains(UsbStep::DetachKernelDriver(1))) by {
        if !d.interface1 && a.contains(UsbStep::DetachKernelDriver(1)) {
            let t = choose|t: int| 0 <= t < a.len() && a[t] == UsbStep::DetachKernelDriver(1);
        }
    }
}

/// How long a handler with tick period `period_ms`, last called
/// `elapsed_ms` ago, may still sleep.
pub fn sleep_remaining(period_ms: u64, elapsed_ms: u64) -> (r: u64)
    ensures
        r == (if elapsed_ms > period_ms {
            0
        } else {
            period_ms - elapsed_ms
        }),
{
    if elapsed_ms > period_ms {
        0
    } else {
        period_ms - elapsed_ms
    }
}

/// The wait of one loop iteration: the least remaining sleep among the
/// handlers that tick, or [`FOREVER_MS`] when none does.
pub fn loop_timeout(sleeps: &Vec<Option<u64>>) -> (r: u64)
    ensures
        (forall|i: int| 0 <= i < sleeps@.len() ==> (#[trigger] sleeps@[i]) is None) ==> r
            == FOREVER_MS,
        (exists|i: int| 0 <= i < sleeps@.len() && (#[trigger] sleeps@[i]) is Some) ==> {
            &&& exists|i: int| 0 <= i < sleeps@.len() && #[trigger] sleeps@[i] == Some(r)
            &&& forall|i: int|
                0 <= i < sleeps@.len() && (#[trigger] sleeps@[i]) is Some ==> r
                    <= sleeps@[i].unwrap()
        },
{
    let mut best: Option<u64> = None;
    let mut i: usize = 0;
    while i < sleeps.len()
        invariant
            i <= sleeps@.len(),
            best is None <==> forall|t: int| 0 <= t < i ==> (#[trigger] sleeps@[t]) is None,
            best is Some ==> exists|t: int| 0 <= t < i && #[trigger] sleeps@[t] == best,
            best is Some ==> forall|t: int|
                0 <= t < i && (#[trigger] sleeps@[t]) is Some ==> best.unwrap()
                    <= sleeps@[t].unwrap(),
        decreases sleeps@.len() - i,
    {
        match sleeps[i] {
            Some(d) => {
                match best {
                    Some(b) => {
                        if d < b {
                            best = Some(d);
                        }
                    },
                    None => {
                        best = Some(d);
                    },
                }
            },
            None => {},
        }
        i = i + 1;
    }
    match best {
        Some(b) => b,
        None => FOREVER_MS,
    }
}

/// The handlers to tick after a wait timed out: those whose remaining sleep
/// is zero, in registration order.
pub fn due_handlers(sleeps: &Vec<Option<u64>>) -> (r: Vec<usize>)
    ensures
        forall|t: int| 0 <= t < r@.len() ==> (#[trigger] r@[t]) < sleeps@.len(),
        forall|t: int| 0 <= t < r@.len() ==> sleeps@[#[trigger] r@[t] as int] == Some(0u64),
        forall|a: int, b: int| 0 <= a < b < r@.len() ==> #[trigger] r@[a] < #[trigger] r@[b],
        forall|i: int|
            0 <= i < sleeps@.len() && #[trigger] sleeps@[i] == Some(0u64) ==> r@.contains(
                i as usize,
            ),
{
    let mut r: Vec<usize> = Vec::new();
    let mut i: usize = 0;
    while i < sleeps.len()
        invariant
            i <= sleeps@.len(),
            forall|t: int| 0 <= t < r@.len() ==> (#[trigger] r@[t]) < i,
            forall|t: int| 0 <= t < r@.len() ==> sleeps@[#[trigger] r@[t] as int] == Some(0u64),
            forall|a: int, b: int| 0 <= a < b < r@.len() ==> #[trigger] r@[a] < #[trigger] r@[b],
            forall|j: int|
                0 <= j < i && #[trigger] sleeps@[j] == Some(0u64) ==> r@.contains(j as usize),
        decreases sleeps@.len() - i,
    {
        if sleeps[i] == Some(0u64) {
            let ghost before = r@;
            r.push(i);
            proof {
                assert forall|j: int|
                    0 <= j < i + 1 && #[trigger] sleeps@[j] == Some(0u64) implies r@.contains(
                    j as usize,
                ) by {
                    if j < i {
                        let t = choose|t: int| 0 <= t < before.len() && before[t] == j as usize;
                        assert(r@[t] == before[t]);
                    } else {
                        assert(r@[r@.len() - 1] == i);
                    }
                }
            }
        }
        i = i + 1;
    }
    r
}

/// What the event loop does after an iteration failed.
#[derive(Debug, Clone, Copy, PartialEq, Eq, Structural)]
pub enum LoopAction {
    /// Reconnect to the device and resume.
    Reconnect,
    /// End the session with this error.
    Stop(Error),
}

/// The loop recovers from a lost, failing or busy device by reconnecting,
/// unless automatic reconnection is switched off; every other error ends the
/// session.
pub fn on_loop_error(e: Error, auto_reconnect: bool) -> (r: LoopAction)
    ensures
        r == (if auto_reconnect && e.spec_is_recoverable() {
            LoopAction::Reconnect
        } else {
            LoopAction::Stop(e)
        }),
{
    if auto_reconnect && e.is_recoverable() {
        LoopAction::Reconnect
    } else {
        LoopAction::Stop(e)
    }
}

/// Progress of a reconnection: how many attempts were made out of how many
/// are allowed, and the last error seen.
pub struct Reconnection {
    attempts_made: u32,
    max_attempts: u32,
    last_error: Option<Error>,
}

impl Reconnection {
    pub closed spec fn spec_attempts_made(&self) -> u32 {
        self.attempts_made
    }

    pub closed spec fn spec_max_attempts(&self) -> u32 {
        self.max_attempts
    }

    pub closed spec fn spec_last_error(&self) -> Option<Error> {
        self.last_error
    }

    pub closed spec fn wf(&self) -> bool {
        self.attempts_made <= self.max_attempts
    }

    /// A reconnection that allows `attempts` attempts (none if it is not
    /// positive).
    pub fn new(attempts: i32) -> (r: Reconnection)
        ensures
            r.wf(),
            r.spec_attempts_made() == 0,
            r.spec_max_attempts() == (if attempts > 0 {
                attempts as u32
            } else {
                0
            }),
            r.spec_last_error() is None,
    {
        let max_attempts: u32 = if attempts > 0 {
            attempts as u32
        } else {
            0
        };
        Reconnection { attempts_made: 0, max_attempts, last_error: None }
    }

    /// Whether another attempt may be made.
    pub fn may_attempt(&self) -> (r: bool)
        ensures
            r == (self.spec_attempts_made() < self.spec_max_attempts()),
    {
        self.attempts_made < self.max_attempts
    }

    /// Records a failed attempt.
    pub fn record_failure(&mut self, e: Error)
        requires
            old(self).wf(),
            old(self).spec_attempts_made() < old(self).spec_max_attempts(),
        ensures
            final(self).wf(),
            final(self).spec_attempts_made() == old(self).spec_attempts_made() + 1,
            final(self).spec_max_attempts() == old(self).spec_max_attempts(),
            final(self).spec_last_error() == Some(e),
    {
        self.attempts_made = self.attempts_made + 1;
        self.last_error = Some(e);
    }

    /// The error reported when the attempts are used up: the last one seen,
    /// or `ReconnectExhausted` when no attempt was made.
    pub fn failure(&self) -> (r: Error)
        ensures
            r == (match self.spec_last_error() {
                Some(e) => e,
                None => Error::ReconnectExhausted,
            }),
    {
        match self.last_error {
            Some(e) => e,
            None => Error::ReconnectExhausted,
        }
    }
}

} // verus!
