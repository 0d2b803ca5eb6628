use vstd::prelude::*;

verus! {

/// The error kinds of the driver.
#[derive(Debug, Clone, Copy, PartialEq, Eq, Structural)]
pub enum Error {
    /// No device with the expected vendor/product ids is attached.
    DeviceAbsent,
    /// A kernel driver could not be detached or an interface not claimed.
    AccessDenied,
    /// A transient transfer failure.
    Io,
    /// The device reports that it is busy.
    Busy,
    /// A control packet carries an unrecognised opcode.
    UnknownControl,
    /// A color was requested for a key without a programmable LED.
    InvalidTarget,
    /// An acknowledgement arrived while no control transfer was in flight.
    QueueBroken,
    /// Reconnection gave up before any attempt was made.
    ReconnectExhausted,
    /// Any other failure of the host USB layer; it ends the session.
    Other,
}

impl Error {
    /// The errors from which the event loop recovers by reconnecting.
    pub open spec fn spec_is_recoverable(self) -> bool {
        self == Error::DeviceAbsent || self == Error::Io || self == Error::Busy
    }

    pub fn is_recoverable(&self) -> (r: bool)
        ensures
            r == self.spec_is_recoverable(),
    {
        match self {
            Error::DeviceAbsent | Error::Io | Error::Busy => true,
            _ => false,
        }
    }
}

} // verus!
