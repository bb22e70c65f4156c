//! Access modes for opening a large object.
use vstd::prelude::*;

verus! {

/// Access modes for opening a large object.
///
/// The server makes no distinction between `Write` and `ReadWrite`: both
/// grant read and write access.
#[derive(Debug, Clone, Copy, PartialEq, Eq, Structural)]
pub enum Mode {
    /// The object may only be read from.
    Read,
    /// The object may be written to.
    Write,
    /// The object may be read from or written to.
    ReadWrite,
}

/// Flag bit of the server's `INV_READ` access mode.
pub const INV_READ: i32 = 0x0004_0000;

/// Flag bit of the server's `INV_WRITE` access mode.
pub const INV_WRITE: i32 = 0x0002_0000;

impl Mode {
    /// The flag word the server's `lo_open` expects for this mode.
    pub open spec fn spec_flags(self) -> i32 {
        match self {
            Mode::Read => INV_READ,
            Mode::Write => INV_WRITE,
            Mode::ReadWrite => INV_READ | INV_WRITE,
        }
    }

    /// Returns the flag word passed to `lo_open` for this mode.
    pub fn to_i32(&self) -> (r: i32)
        ensures
            r == self.spec_flags(),
    {
        match *self {
            Mode::Read => INV_READ,
            Mode::Write => INV_WRITE,
            Mode::ReadWrite => INV_READ | INV_WRITE,
        }
    }
}

} // verus!
