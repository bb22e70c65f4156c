//! The remote large-object functions, as values, and the errors they map to.
use vstd::prelude::*;
use vstd::string::StringSliceAdditionalSpecFns;

verus! {

/// Whence code of the server's seek calls: from the start of the object.
pub const SEEK_SET: i32 = 0;

/// Whence code of the server's seek calls: from the current position.
pub const SEEK_CUR: i32 = 1;

/// Whence code of the server's seek calls: from the end of the object.
pub const SEEK_END: i32 = 2;

/// One call of a server-side large-object function, with its arguments.
#[derive(Debug, Clone, Copy, PartialEq, Eq, Structural)]
#[allow(inconsistent_fields)]
pub enum Call {
    /// `lo_create(0)`: makes a new object and returns its identifier.
    Create,
    /// `lo_unlink(oid)`: deletes an object.
    Unlink { oid: u32 },
    /// `lo_open(oid, flags)`: opens an object and returns a descriptor.
    Open { oid: u32, flags: i32 },
    /// `loread(fd, len)`: reads at most `len` bytes at the current position.
    Read { fd: i32, len: i32 },
    /// `lowrite(fd, data)`, where `data` is `buf[start..end]` of the
    /// caller's buffer.
    Write { fd: i32, start: usize, end: usize },
    /// `lo_lseek(fd, offset, whence)`, with 32-bit offsets.
    Seek { fd: i32, offset: i32, whence: i32 },
    /// `lo_lseek64(fd, offset, whence)`, with 64-bit offsets.
    Seek64 { fd: i32, offset: i64, whence: i32 },
    /// `lo_truncate(fd, len)`, with a 32-bit length.
    Truncate { fd: i32, len: i32 },
    /// `lo_truncate64(fd, len)`, with a 64-bit length.
    Truncate64 { fd: i32, len: i64 },
    /// `lo_close(fd)`: releases the descriptor.
    Close { fd: i32 },
}

/// The statement that performs a call; its parameters are the call's
/// fields in the order they are declared.
pub open spec fn spec_sql(c: Call) -> &'static str {
    match c {
        Call::Create => "SELECT pg_catalog.lo_create(0)",
        Call::Unlink { .. } => "SELECT pg_catalog.lo_unlink($1)",
        Call::Open { .. } => "SELECT pg_catalog.lo_open($1, $2)",
        Call::Read { .. } => "SELECT pg_catalog.loread($1, $2)",
        Call::Write { .. } => "SELECT pg_catalog.lowrite($1, $2)",
        Call::Seek { .. } => "SELECT pg_catalog.lo_lseek($1, $2, $3)",
        Call::Seek64 { .. } => "SELECT pg_catalog.lo_lseek64($1, $2, $3)",
        Call::Truncate { .. } => "SELECT pg_catalog.lo_truncate($1, $2)",
        Call::Truncate64 { .. } => "SELECT pg_catalog.lo_truncate64($1, $2)",
        Call::Close { .. } => "SELECT pg_catalog.lo_close($1)",
    }
}

impl Call {
    /// Returns the statement that performs this call.
    pub fn sql(&self) -> (r: &'static str)
        ensures
            r == spec_sql(*self),
    {
        match self {
            Call::Create => "SELECT pg_catalog.lo_create(0)",
            Call::Unlink { .. } => "SELECT pg_catalog.lo_unlink($1)",
            Call::Open { .. } => "SELECT pg_catalog.lo_open($1, $2)",
            Call::Read { .. } => "SELECT pg_catalog.loread($1, $2)",
            Call::Write { .. } => "SELECT pg_catalog.lowrite($1, $2)",
            Call::Seek { .. } => "SELECT pg_catalog.lo_lseek($1, $2, $3)",
            Call::Seek64 { .. } => "SELECT pg_catalog.lo_lseek64($1, $2, $3)",
            Call::Truncate { .. } => "SELECT pg_catalog.lo_truncate($1, $2)",
            Call::Truncate64 { .. } => "SELECT pg_catalog.lo_truncate64($1, $2)",
            Call::Close { .. } => "SELECT pg_catalog.lo_close($1)",
        }
    }

    /// Calls that change the object's contents, which the server refuses
    /// on a descriptor that was not opened for writing.
    pub open spec fn spec_modifies(self) -> bool {
        self is Write || self is Truncate || self is Truncate64
    }

    /// Calls that name an object by its identifier, which the server
    /// refuses where no such object exists.
    pub open spec fn spec_names_object(self) -> bool {
        self is Unlink || self is Open
    }

    /// Whether this call names an object by its identifier.
    pub fn names_object(&self) -> (r: bool)
        ensures
            r == self.spec_names_object(),
    {
        matches!(self, Call::Unlink { .. } | Call::Open { .. })
    }

    /// Whether this call changes the object's contents.
    pub fn modifies(&self) -> (r: bool)
        ensures
            r == self.spec_modifies(),
    {
        matches!(self, Call::Write { .. } | Call::Truncate { .. } | Call::Truncate64 { .. })
    }
}

/// What can go wrong on a large object.
#[derive(Debug, Clone, Copy, PartialEq, Eq, Structural)]
pub enum LoError {
    /// The remote call failed for a reason this layer does not tell apart.
    Protocol,
    /// The object identifier names no object.
    NotFound,
    /// An offset or a length out of the range the server can address; no
    /// call was made.
    InvalidArgument,
    /// The server refused to change the object.
    Permission,
}

/// SQLSTATE `42704`, `undefined_object`.
pub open spec fn undefined_object() -> Seq<u8> {
    seq![52u8, 50u8, 55u8, 48u8, 52u8]
}

/// SQLSTATE `42501`, `insufficient_privilege`.
pub open spec fn insufficient_privilege() -> Seq<u8> {
    seq![52u8, 50u8, 53u8, 48u8, 49u8]
}

/// SQLSTATE `55000`, `object_not_in_prerequisite_state`: what the server
/// reports for a change through a descriptor opened for reading only.
pub open spec fn object_not_in_prerequisite_state() -> Seq<u8> {
    seq![53u8, 53u8, 48u8, 48u8, 48u8]
}

/// The error for a failed call, from the SQLSTATE the server reported
/// (`None` where the failure did not come from the server): a missing
/// object where the call names one, a refused change of an object's
/// contents, or else a protocol failure.
pub open spec fn spec_classify(code: Option<Seq<u8>>, call: Call) -> LoError {
    match code {
        Some(c) => if c == undefined_object() && call.spec_names_object() {
            LoError::NotFound
        } else if call.spec_modifies() && (c == insufficient_privilege() || c
            == object_not_in_prerequisite_state()) {
            LoError::Permission
        } else {
            LoError::Protocol
        },
        None => LoError::Protocol,
    }
}

fn code_is(b: &[u8], c: [u8; 5]) -> (r: bool)
    ensures
        r == (b@ == c@),
{
    let r = b.len() == 5 && b[0] == c[0] && b[1] == c[1] && b[2] == c[2] && b[3] == c[3] && b[4]
        == c[4];
    proof {
        if r {
            assert(b@ =~= c@);
        }
        if b@ == c@ {
            assert(b@[0] == c@[0] && b@[1] == c@[1] && b@[2] == c@[2]);
            assert(b@[3] == c@[3] && b@[4] == c@[4]);
        }
    }
    r
}

/// Maps the failure of `call` to an error, from the SQLSTATE the server
/// reported with it, if any.
pub fn classify(code: Option<&str>, call: &Call) -> (r: LoError)
    ensures
        r == spec_classify(
            match code {
                Some(c) => Some(c.spec_bytes()),
                None => None,
            },
            *call,
        ),
{
    match code {
        Some(c) => {
            let b = c.as_bytes();
            let undefined: [u8; 5] = [52u8, 50u8, 55u8, 48u8, 52u8];
            let privilege: [u8; 5] = [52u8, 50u8, 53u8, 48u8, 49u8];
            let state: [u8; 5] = [53u8, 53u8, 48u8, 48u8, 48u8];
            assert(undefined@ =~= undefined_object());
            assert(privilege@ =~= insufficient_privilege());
            assert(state@ =~= object_not_in_prerequisite_state());
            if code_is(b, undefined) && call.names_object() {
                LoError::NotFound
            } else if call.modifies() && (code_is(b, privilege) || code_is(b, state)) {
                LoError::Permission
            } else {
                LoError::Protocol
            }
        },
        None => LoError::Protocol,
    }
}

} // verus!
