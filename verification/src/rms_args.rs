//! Arguments of the `rms` command.
use vstd::prelude::*;

verus! {

/// An RMS request with the client options.
pub struct RmsAction {
    pub command: Cmd,
    /// URL of the RMS API endpoint.
    pub url: Option<String>,
    /// Root CA path.
    pub root_ca: Option<String>,
    /// Client certificate path.
    pub client_cert: Option<String>,
    /// Client key path.
    pub client_key: Option<String>,
}

/// The RMS requests.
pub enum Cmd {
    /// The full RMS inventory.
    Inventory,
    /// The power-on sequence of a rack.
    PowerOnSequence(PowerOnSequence),
    /// The power state of a node.
    PowerState(PowerState),
    /// The firmware inventory of a node.
    FirmwareInventory(FirmwareInventory),
}

/// The rack whose power-on sequence is requested.
pub struct PowerOnSequence {
    pub rack_id: String,
}

/// The node whose power state is requested.
pub struct PowerState {
    pub rack_id: String,
    pub node_id: String,
}

/// The node whose firmware inventory is requested.
pub struct FirmwareInventory {
    pub rack_id: String,
    pub node_id: String,
}

} // verus!
