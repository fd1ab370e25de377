use vstd::prelude::*;

verus! {

/// What went wrong while translating or building a block.
#[derive(Clone, Copy, Debug, PartialEq, Eq, Structural)]
pub enum ErrorKind {
    /// The guest instruction has an operation or operand shape that is not supported.
    Decode,
    /// The scratch register pool has no free register left.
    Exhausted,
    /// The host instructions could not be encoded or placed in executable memory.
    Build,
    /// A guest register that the register file does not model was named.
    Unmapped,
    /// The executable image is malformed.
    Image,
}

/// An error of the translator: its kind and a message for the user.
#[derive(Debug)]
pub struct Error {
    pub kind: ErrorKind,
    pub err: String,
}

impl Error {
    /// A build error carrying `err` as its message.
    pub fn new(err: String) -> (r: Error)
        ensures
            r.kind == ErrorKind::Build,
            r.err@ == err@,
    {
        Error { kind: ErrorKind::Build, err }
    }

    /// An error of the given kind carrying `err` as its message.
    pub fn with_kind(kind: ErrorKind, err: String) -> (r: Error)
        ensures
            r.kind == kind,
            r.err@ == err@,
    {
        Error { kind, err }
    }

    /// The message of this error.
    pub fn message(&self) -> (r: String)
        ensures
            r@ == self.err@,
    {
        self.err.clone()
    }
}

} // verus!
