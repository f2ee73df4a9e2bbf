//! What the control plane reports about itself.

use vstd::prelude::*;

verus! {

/// The version of the wire protocol spoken to clients and hosts.
pub const PROTOCOL_VER: u32 = 1;

/// The version of this package.
pub const PKG_VERSION: &'static str = "0.1.0";

/// How clients are authenticated.
#[derive(Debug, Clone, Copy, PartialEq, Eq, Structural)]
pub enum VkMode {
    NoAuth,
}

/// The version, protocol and authentication mode of this control plane.
#[derive(Debug)]
pub struct VkInfo {
    pub version: String,
    pub protocol: u32,
    pub mode: VkMode,
}

impl VkInfo {
    /// The information of this build.
    pub fn new() -> (r: Self)
        ensures
            r.version@ == PKG_VERSION@,
            r.protocol == PROTOCOL_VER,
            r.mode == VkMode::NoAuth,
    {
        VkInfo { version: String::from_str(PKG_VERSION), protocol: PROTOCOL_VER, mode: VkMode::NoAuth }
    }
}

} // verus!
