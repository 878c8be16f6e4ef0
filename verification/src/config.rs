//! Build-time configuration of the node.

use vstd::prelude::*;

verus! {

/// Credentials of the Wi-Fi network the node joins.
pub struct EnvConfig {
    pub wifi_ssid: &'static str,
    pub wifi_password: &'static str,
}

} // verus!
