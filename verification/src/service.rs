//! The service record: one runit service with its name, state and location.
use vstd::prelude::*;
use vstd::string::*;

verus! {

/// A runit service with its current state.
///
/// * `name` - service name (e.g. "NetworkManager")
/// * `status` - current status ("run", "down", "finish" or "unknown")
/// * `pid` - process id while running, when `sv` reported one
/// * `enabled` - whether the service is enabled (linked into the service directory)
/// * `path` - path to the service directory
#[derive(Debug, Clone)]
pub struct Service {
    /// Service name
    pub name: String,
    /// Current status of the service
    pub status: String,
    /// Process ID if the service is running
    pub pid: Option<String>,
    /// Whether the service is enabled
    pub enabled: bool,
    /// Path to the service configuration directory
    pub path: String,
}

/// What a [`Service`] holds, as character sequences.
#[verifier::ext_equal]
pub struct ServiceView {
    pub name: Seq<char>,
    pub status: Seq<char>,
    pub pid: Option<Seq<char>>,
    pub enabled: bool,
    pub path: Seq<char>,
}

impl View for Service {
    type V = ServiceView;

    open spec fn view(&self) -> ServiceView {
        ServiceView {
            name: self.name@,
            status: self.status@,
            pid: self.pid.deep_view(),
            enabled: self.enabled,
            path: self.path@,
        }
    }
}

impl DeepView for Service {
    type V = ServiceView;

    open spec fn deep_view(&self) -> ServiceView {
        self@
    }
}

/// The status of a service whose supervisor reports it running.
pub open spec fn status_run() -> Seq<char> {
    "run"@
}

/// The status of a service that is down.
pub open spec fn status_down() -> Seq<char> {
    "down"@
}

/// The status of a service whose finish script is running.
pub open spec fn status_finish() -> Seq<char> {
    "finish"@
}

/// The status of a service whose state could not be determined.
pub open spec fn status_unknown() -> Seq<char> {
    "unknown"@
}

/// The four statuses a service can be shown with.
pub open spec fn is_known_status(s: Seq<char>) -> bool {
    s == status_run() || s == status_down() || s == status_finish() || s == status_unknown()
}

/// A freshly discovered service: down, without a process id.
pub open spec fn fresh_service(name: Seq<char>, path: Seq<char>, enabled: bool) -> ServiceView {
    ServiceView { name, status: status_down(), pid: None, enabled, path }
}

impl Service {
    /// Creates a new service that is down, disabled and has no process id.
    pub fn new(name: String, path: String) -> (s: Service)
        ensures
            s@ == fresh_service(name@, path@, false),
    {
        Service { name, status: String::from_str("down"), pid: None, enabled: false, path }
    }
}

} // verus!
