use vstd::prelude::*;
use vstd::string::StringExecFns;

verus! {

/// What the program is started with: the flic daemon's host, the button's
/// address and the Hue bridge user.
pub struct Options {
    /// the hostname of the flicd server
    pub server: String,
    /// the mac address of the flic button to connect to
    pub button: String,
    /// the hostname of the hue bridge
    pub username: String,
}

/// The address of the flic daemon on `server`: `{server}:5551`.
pub fn flic_server_address(server: &str) -> (addr: String)
    ensures
        addr@ == server@ + ":5551"@,
{
    let mut addr = String::from_str(server);
    addr.append(":5551");
    addr
}

} // verus!
