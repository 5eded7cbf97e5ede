//! A stand-in for the device that the upload stage hands its work to.

use vstd::prelude::*;

use crate::label::{append_decimal, decimal};

verus! {

/// What the device reports when `owner` asks it for a command pool.
pub open spec fn command_pool_line(id: u32, owner: Seq<char>) -> Seq<char> {
    "Device "@ + decimal(id as nat) + ": create command pool for "@ + owner
}

/// What the device reports when `owner` submits work to it.
pub open spec fn submit_line(id: u32, owner: Seq<char>) -> Seq<char> {
    "Device "@ + decimal(id as nat) + ": submit from "@ + owner
}

/// A device known by its number. It performs nothing: each request gives the
/// line that its caller writes to the log.
#[derive(Debug)]
pub struct Device {
    id: u32,
}

impl Device {
    /// The device's number.
    pub closed spec fn number(&self) -> u32 {
        self.id
    }

    pub fn new(id: u32) -> (device: Self)
        ensures
            device.number() == id,
    {
        Device { id }
    }

    /// The device's number.
    pub fn id(&self) -> (id: u32)
        ensures
            id == self.number(),
    {
        self.id
    }

    /// Asks for a command pool on behalf of `owner`.
    pub fn create_command_pool(&self, owner: &str) -> (line: String)
        ensures
            line@ == command_pool_line(self.number(), owner@),
    {
        let mut line = String::from_str("Device ");
        append_decimal(&mut line, self.id);
        line.append(": create command pool for ");
        line.append(owner);
        line
    }

    /// Submits work on behalf of `owner`.
    pub fn submit(&self, owner: &str) -> (line: String)
        ensures
            line@ == submit_line(self.number(), owner@),
    {
        let mut line = String::from_str("Device ");
        append_decimal(&mut line, self.id);
        line.append(": submit from ");
        line.append(owner);
        line
    }
}

} // verus!
