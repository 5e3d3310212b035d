use vstd::prelude::*;

verus! {

/// The error kinds a session or queue operation can report.
#[derive(Clone, Copy, Debug, PartialEq, Eq, Structural)]
pub enum Error {
    /// Filesystem or socket trouble.
    IO,
    /// A malformed frame or a bad identifier.
    Decode,
    /// An unknown session or resource.
    NotFound,
    /// The translation queue no longer accepts requests.
    QueueClosed,
    /// The recognizer reported a failure for a chunk.
    RecognizerFailure,
}

impl Error {
    /// A short, stable label for the error kind.
    pub fn describe(&self) -> (r: &'static str)
        ensures
            r@ == self.describe_spec(),
    {
        proof {
            reveal_strlit("io error");
            reveal_strlit("decode error");
            reveal_strlit("not found");
            reveal_strlit("queue closed");
            reveal_strlit("recognizer failure");
        }
        match self {
            Error::IO => "io error",
            Error::Decode => "decode error",
            Error::NotFound => "not found",
            Error::QueueClosed => "queue closed",
            Error::RecognizerFailure => "recognizer failure",
        }
    }

    pub open spec fn describe_spec(&self) -> Seq<char> {
        match self {
            Error::IO => "io error"@,
            Error::Decode => "decode error"@,
            Error::NotFound => "not found"@,
            Error::QueueClosed => "queue closed"@,
            Error::RecognizerFailure => "recognizer failure"@,
        }
    }
}

/// The result type used throughout the session layer.
pub type E<T> = Result<T, Error>;

} // verus!
