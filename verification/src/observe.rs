//! Private diagnostics: where they may be listened for, and whether a process is ready.

use crate::address::SocketAddress;
use vstd::prelude::*;

verus! {

/// Why a diagnostic listener is refused.
#[derive(Clone, Copy, Debug, PartialEq, Eq, Structural)]
pub enum ObserveError {
    NotLoopback,
    SameListener,
}

impl ObserveError {
    /// A description for people.
    pub fn message(self) -> (message: &'static str)
        ensures
            message@ == match self {
                ObserveError::NotLoopback => "diagnostic listener must bind to loopback"@,
                ObserveError::SameListener => "health and metrics listeners must differ"@,
            },
    {
        match self {
            ObserveError::NotLoopback => "diagnostic listener must bind to loopback",
            ObserveError::SameListener => "health and metrics listeners must differ",
        }
    }
}

/// Accepts an address for a diagnostic listener only where nobody else can reach it.
pub fn private_bind(bind: SocketAddress) -> (outcome: Result<SocketAddress, ObserveError>)
    ensures
        outcome == if bind.ip.loopback() {
            Ok(bind)
        } else {
            Err(ObserveError::NotLoopback)
        },
{
    if bind.ip.is_loopback() {
        Ok(bind)
    } else {
        Err(ObserveError::NotLoopback)
    }
}

/// Checks the two diagnostic listeners of a process: both are private, and they differ.
pub fn check_listeners(metrics: SocketAddress, health: SocketAddress) -> (outcome: Result<
    (),
    ObserveError,
>)
    ensures
        outcome == if !metrics.ip.loopback() || !health.ip.loopback() {
            Err(ObserveError::NotLoopback)
        } else if metrics == health {
            Err(ObserveError::SameListener)
        } else {
            Ok(())
        },
{
    match private_bind(metrics) {
        Err(error) => {
            return Err(error);
        },
        Ok(_) => {},
    }
    match private_bind(health) {
        Err(error) => {
            return Err(error);
        },
        Ok(_) => {},
    }
    if metrics == health {
        return Err(ObserveError::SameListener);
    }
    Ok(())
}

/// Whether a process is ready for work.
#[derive(Clone, Copy, Debug, PartialEq, Eq, Structural)]
pub struct HealthHandle {
    pub ready: bool,
}

impl HealthHandle {
    /// A process that has just begun is not ready.
    pub fn new() -> (health: Self)
        ensures
            !health.ready,
    {
        HealthHandle { ready: false }
    }

    /// Takes note whether the process is ready.
    pub fn set_ready(&mut self, ready: bool)
        ensures
            final(self).ready == ready,
    {
        self.ready = ready;
    }

    /// The status that the question for readiness is answered with.
    pub fn ready_status(&self) -> (status: u16)
        ensures
            status == if self.ready {
                200u16
            } else {
                503u16
            },
    {
        if self.ready {
            200
        } else {
            503
        }
    }
}

} // verus!
