//! The plain data of the Grahmos operating-system integration: network and
//! power states, device modes, permissions and errors.
use vstd::prelude::*;

verus! {

/// Connectivity of the device.
#[derive(Debug, Clone, Copy, PartialEq, Eq, Structural)]
pub enum NetworkStatus {
    Online,
    Offline,
    /// Restricted connectivity.
    Limited,
    /// Data usage is restricted.
    Metered,
}

/// Power source of the device.
#[derive(Debug, Clone, Copy, PartialEq, Eq, Structural)]
pub enum PowerSource {
    Battery,
    AC,
    USB,
    Wireless,
    Unknown,
}

/// Operating mode of the device.
#[derive(Debug, Clone, Copy, PartialEq, Eq, Structural)]
pub enum DeviceState {
    /// Full performance.
    Active,
    /// Reduced performance to save battery.
    PowerSaving,
    /// Minimal operations.
    Sleeping,
    /// Running in the background.
    Background,
}

/// A permission the integration can request.
#[derive(Debug, Clone, Copy, PartialEq, Eq, Structural)]
pub enum Permission {
    FileSystemAccess,
    NetworkAccess,
    NotificationAccess,
    BackgroundExecution,
    ResourceMonitoring,
    SystemIntegration,
}

/// Errors of the operating-system integration.
#[derive(Debug, Clone, PartialEq, Eq)]
pub enum GrahmosError {
    ResourceUnavailable { resource: String },
    PermissionDenied { operation: String },
    QuotaExceeded { quota_type: String, limit: u64 },
    OfflineError { reason: String },
    SystemError(String),
    ConfigError(String),
    /// An I/O operation failed, with its message.
    IoError(String),
}

/// Result of an integration operation.
pub type GrahmosResult<T> = Result<T, GrahmosError>;

} // verus!
