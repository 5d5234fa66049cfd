use vstd::prelude::*;

verus! {

/// On/off switches for the two backend families.
///
/// Every backend of a family shares one switch.
#[derive(Debug, Clone, Copy, PartialEq, Eq, Structural)]
pub struct BackendConfig {
    /// Enables the Oxen relays, the preferred family.
    pub oxen_enabled: bool,
    /// Enables the Tor exits, used only when no Oxen relay is enabled.
    pub tor_enabled: bool,
}

/// Top-level router configuration, already parsed and validated by the caller.
#[derive(Debug, Clone, Copy, PartialEq, Eq, Structural)]
pub struct GoldDustConfig {
    pub backends: BackendConfig,
}

} // verus!
