//! Startup options for the relay: the address and port to listen on and the
//! serial device to bridge.

use vstd::prelude::*;

verus! {

/// Serial baud rate the relay opens the device with.
pub const BAUD_RATE: u32 = 9600;

/// Default TCP port the relay listens on.
pub const DEFAULT_PORT: u16 = 41800;

/// Options the relay is started with: where to listen and which serial
/// device to bridge.
pub struct Opts {
    /// The IP to listen on.
    pub host: String,
    /// The port to listen on.
    pub port: u16,
    /// The serial port to connect to.
    pub device: String,
}

impl Opts {
    /// Bundles the three startup inputs into one value.
    pub fn new(host: String, port: u16, device: String) -> (o: Opts)
        ensures
            o.host@ == host@,
            o.port == port,
            o.device@ == device@,
    {
        Opts { host, port, device }
    }
}

} // verus!
