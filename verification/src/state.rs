//! What the service reports about itself.

use vstd::prelude::*;
use crate::store::clone_text;

verus! {

/// What observers are told about the service.
#[derive(Debug)]
pub struct ServiceStatus {
    /// Whether the service is up.
    pub running: bool,
    /// Whether the service takes requests.
    pub ready: bool,
    /// Whether a session is running.
    pub is_recording: bool,
    /// Name of the mode of the running session.
    pub mode: Option<String>,
}

impl ServiceStatus {
    /// Whether the status is that of a service without a session.
    pub open spec fn is_idle(&self) -> bool {
        self.running && self.ready && !self.is_recording && self.mode is None
    }

    /// Whether the status is that of a service with a session of the mode
    /// named `mode`.
    pub open spec fn is_recording_in(&self, mode: Seq<char>) -> bool {
        &&& self.running && self.ready && self.is_recording
        &&& self.mode matches Some(name)
        &&& name@ == mode
    }
}

impl Default for ServiceStatus {
    fn default() -> (status: Self)
        ensures
            status.is_idle(),
    {
        ServiceStatus { running: true, ready: true, is_recording: false, mode: None }
    }
}

impl Clone for ServiceStatus {
    fn clone(&self) -> (copy: Self)
        ensures
            copy == *self,
    {
        ServiceStatus {
            running: self.running,
            ready: self.ready,
            is_recording: self.is_recording,
            mode: clone_text(&self.mode),
        }
    }
}

} // verus!
