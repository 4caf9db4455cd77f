use vstd::prelude::*;

verus! {

/// What went wrong, for callers that want more than the message.
#[derive(Clone, Copy, Debug, PartialEq, Eq, Structural)]
pub enum ErrorKind {
    /// The word source is empty, unreadable or not configured.
    Source,
    /// The terminal failed to read a key or to draw.
    Adapter,
}

/// The library's single error: a kind and a human-readable message.
pub struct RustypexError {
    pub kind: ErrorKind,
    pub msg: String,
}

impl RustypexError {
    /// An error of the word source.
    pub fn source(msg: String) -> (r: RustypexError)
        ensures
            r.kind == ErrorKind::Source,
            r.msg@ == msg@,
    {
        RustypexError { kind: ErrorKind::Source, msg }
    }

    /// An error of the terminal.
    pub fn adapter(msg: String) -> (r: RustypexError)
        ensures
            r.kind == ErrorKind::Adapter,
            r.msg@ == msg@,
    {
        RustypexError { kind: ErrorKind::Adapter, msg }
    }

    /// The text shown when the error ends the program.
    pub fn message(&self) -> (r: String)
        ensures
            r@ == self.msg@,
    {
        self.msg.clone()
    }
}

/// A bare message is an error of the word source.
impl From<String> for RustypexError {
    fn from(msg: String) -> (r: RustypexError) {
        RustypexError { kind: ErrorKind::Source, msg }
    }
}

impl vstd::std_specs::convert::FromSpecImpl<String> for RustypexError {
    open spec fn obeys_from_spec() -> bool {
        true
    }

    open spec fn from_spec(msg: String) -> RustypexError {
        RustypexError { kind: ErrorKind::Source, msg }
    }
}

} // verus!
