//! The telemetry switch.
//!
//! Tracing setup lives at the application edge; the library only carries
//! the switch that tells it whether the open-telemetry exporter is wanted.

use vstd::prelude::*;

verus! {

/// Configures tracing setup to enable or disable the open-telemetry
/// exporter.
#[derive(Clone, Copy, Debug, PartialEq, Eq, Structural)]
pub enum OpenTelemetry {
    Enabled,
    Disabled,
}

impl OpenTelemetry {
    /// Whether the exporter is enabled.
    pub open spec fn spec_is_enabled(self) -> bool {
        self is Enabled
    }

    /// Reads the switch.
    pub fn is_enabled(self) -> (r: bool)
        ensures
            r == self.spec_is_enabled(),
    {
        matches!(self, OpenTelemetry::Enabled)
    }
}

} // verus!
