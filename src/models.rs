use vstd::prelude::*;

verus! {

/// USB vendor id of the supported devices.
pub const VID: u16 = 0xb1b0;

/// Product ids of the supported device variants.
pub const PIDS: [u16; 2] = [0x5508, 0x8055];

/// Product id of the first device variant.
pub const PID: u16 = 0x5508;

/// The bytes that open every valid decrypted message: `SNAPPY:`.
pub const EXPECTED_PREFIX: [u8; 7] = [0x53, 0x4e, 0x41, 0x50, 0x50, 0x59, 0x3a];

/// Acknowledgement of an inbound command.
#[derive(Clone, Debug)]
pub struct SerialResponse {
    pub success: bool,
    pub message: String,
    pub command: String,
    pub error: Option<String>,
}

/// A connection-presence event.
#[derive(Clone, Debug)]
pub struct EventResponse {
    pub event: String,
    pub status: String,
}

/// One decoded measurement, as pushed to clients.
#[derive(Clone, Debug)]
pub struct SnapDataEvent {
    pub mac: String,
    pub value: u16,
    pub timestamp: String,
    pub pid: u16,
}

/// The parts of a package manifest that configure the agent.
pub struct CargoToml {
    pub package: Package,
}

/// The `[package]` table.
pub struct Package {
    pub metadata: Option<Metadata>,
}

/// The `[package.metadata]` table.
pub struct Metadata {
    pub encryption: Option<EncryptionConfig>,
}

/// The `[package.metadata.encryption]` table: the key vector.
pub struct EncryptionConfig {
    pub key: Vec<u32>,
}

} // verus!
