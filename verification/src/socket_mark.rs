use vstd::prelude::*;
use crate::text::cat2;

verus! {

/// Why a socket was not marked.
#[derive(Debug, PartialEq, Eq)]
pub enum SoMarkError {
    UnsupportedPlatform,
    SetFailed(String),
}

impl SoMarkError {
    /// The error in words.
    pub open spec fn words(self) -> Seq<char> {
        match self {
            SoMarkError::UnsupportedPlatform => "SO_MARK is only supported on Linux"@,
            SoMarkError::SetFailed(reason) => "failed to set SO_MARK: "@ + reason@,
        }
    }

    /// The error in words.
    pub fn message(&self) -> (r: String)
        ensures
            r@ == self.words(),
    {
        match self {
            SoMarkError::UnsupportedPlatform => "SO_MARK is only supported on Linux".to_owned(),
            SoMarkError::SetFailed(reason) => cat2("failed to set SO_MARK: ", reason.as_str()),
        }
    }
}

/// A socket whose packets can be marked.
pub trait SocketMarkSetter {
    /// Marks the packets of the socket.
    fn set_mark(&self, mark: u32) -> Result<(), SoMarkError>;
}

/// What came of setting a mark, by the code that the system gave.
pub open spec fn mark_end(code: i32, reason: String) -> Result<(), SoMarkError> {
    if code == 0 {
        Ok(())
    } else {
        Err(SoMarkError::SetFailed(reason))
    }
}

/// What came of the request to mark a socket: zero is success, and any other code comes with
/// a reason.
pub fn mark_outcome(code: i32, reason: String) -> (r: Result<(), SoMarkError>)
    ensures
        r == mark_end(code, reason),
{
    if code == 0 {
        Ok(())
    } else {
        Err(SoMarkError::SetFailed(reason))
    }
}

/// A mark is set if and only if the system gave the code zero; a failure keeps its reason.
pub proof fn zero_is_success(code: i32, reason: String)
    ensures
        mark_end(code, reason) is Ok <==> code == 0,
        code != 0 ==> mark_end(code, reason) == Err::<(), SoMarkError>(
            SoMarkError::SetFailed(reason),
        ),
{
}

} // verus!
