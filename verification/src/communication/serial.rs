//! A serial port as a source of text lines.
use vstd::prelude::*;

verus! {

/// A serial link, named by its port and its baud rate.
pub struct SerialComm {
    pub port_name: String,
    pub baud_rate: u32,
}

impl SerialComm {
    /// Describes a serial link on `port_name` at `baud_rate`.
    pub fn new(port_name: String, baud_rate: u32) -> (res: Self)
        ensures
            res.port_name@ == port_name@,
            res.baud_rate == baud_rate,
    {
        SerialComm { port_name, baud_rate }
    }
}

} // verus!
