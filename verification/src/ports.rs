use vstd::prelude::*;

verus! {

/// A serial device as port enumeration reports it: an identifier, a
/// human-readable label, the OS port name, and the USB identity where
/// one exists.
#[derive(Clone, Debug)]
pub struct PortInfo {
    pub id: String,
    pub label: String,
    pub port_name: String,
    pub vid: Option<u16>,
    pub pid: Option<u16>,
    pub serial: Option<String>,
}

} // verus!
