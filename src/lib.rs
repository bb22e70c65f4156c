//! Random-access byte streams over the Postgres large-object store.
//!
//! The library decides which server-side large-object function each stream
//! operation calls, and with which arguments; it reads the server version to
//! choose between the 32-bit and 64-bit calls, maps server errors, and makes
//! sure a handle is closed exactly once. The calls themselves are made by
//! the caller, which hands back what the server answered.
mod call;
mod handle;
mod mode;
mod model;
mod version;

pub use call::{classify, Call, LoError, SEEK_CUR, SEEK_END, SEEK_SET};
pub use handle::{
    copy_read_reply, open_call, position_from_reply, HandleState, LargeObject, SeekFrom,
    MAX_TRANSFER,
};
pub use mode::{Mode, INV_READ, INV_WRITE};
pub use version::{has_64_bit_support, negotiate, parse_i32, parse_server_version};
