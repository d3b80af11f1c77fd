use vstd::prelude::*;
use vstd::string::StringExecFns;

use crate::flic::commands::Command;
use crate::flic::enums::LatencyMode;

verus! {

/// The connection channel id that subscribing to a button opens.
pub const SUBSCRIPTION_CONN_ID: u32 = 2;

/// The auto-disconnect time that subscribing to a button asks for.
pub const SUBSCRIPTION_AUTO_DISCONNECT_TIME: i16 = 11111;

/// The command that subscribes to the button at address `button`: it opens
/// channel `SUBSCRIPTION_CONN_ID` at normal latency.
pub fn subscribe_command(button: &str) -> (c: Command)
    ensures
        c matches Command::CreateConnectionChannel {
            conn_id,
            bd_addr,
            latency_mode,
            auto_disconnect_time,
        } && conn_id == SUBSCRIPTION_CONN_ID && bd_addr@ == button@ && latency_mode
            == LatencyMode::NormalLatency && auto_disconnect_time
            == SUBSCRIPTION_AUTO_DISCONNECT_TIME,
{
    Command::CreateConnectionChannel {
        conn_id: SUBSCRIPTION_CONN_ID,
        bd_addr: String::from_str(button),
        latency_mode: LatencyMode::NormalLatency,
        auto_disconnect_time: SUBSCRIPTION_AUTO_DISCONNECT_TIME,
    }
}

} // verus!
