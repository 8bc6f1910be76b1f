//! Status codes of the operating system and the errors of this crate.

use vstd::prelude::*;

verus! {

/// The Win32 status that means "no error".
pub const ERROR_SUCCESS: u32 = 0;

/// The Win32 status of a call whose buffer was too small for the answer.
pub const ERROR_INSUFFICIENT_BUFFER: u32 = 122;

/// The Win32 status of an invalid window handle.
pub const ERROR_INVALID_WINDOW_HANDLE: u32 = 1400;

/// The Win32 status of an image that holds no resource of the wanted type.
pub const ERROR_RESOURCE_TYPE_NOT_FOUND: u32 = 1813;

/// The Win32 status of an image that holds the wanted resource in no
/// matching language.
pub const ERROR_RESOURCE_LANG_NOT_FOUND: u32 = 1815;

/// The `HRESULT` that stands for a Win32 status: zero and the statuses
/// with the top bit set keep their 32 bits, every other status keeps its
/// low 16 bits and gets the failure bit and the Win32 facility.
pub open spec fn hresult_of_win32(code: u32) -> i32 {
    if code == 0 {
        0i32
    } else if code >= 0x8000_0000 {
        (code - 0x1_0000_0000) as i32
    } else {
        (code % 0x1_0000 + 0x8007_0000 - 0x1_0000_0000) as i32
    }
}

/// A failure that the operating system reported, as its `HRESULT`.
#[derive(Debug, Clone, Copy, PartialEq, Eq, Structural)]
pub struct OsError {
    pub code: i32,
}

/// Calls `windows::core::HRESULT::from_win32` and takes the number out of
/// the result.  The contract restates that function's body: a status that
/// is zero or negative as an `i32` is kept bit for bit, any other is cut
/// to 16 bits and joined with `0x8007_0000`.
#[verifier::external_body]
fn hresult_from_win32(code: u32) -> (hresult: i32)
    ensures
        hresult == hresult_of_win32(code),
{
    windows::core::HRESULT::from_win32(code).0
}

impl OsError {
    /// The error with the given `HRESULT`.
    pub fn from_hresult(code: i32) -> (error: OsError)
        ensures
            error.code == code,
    {
        OsError { code }
    }

    /// The error that stands for a Win32 status.
    pub fn from_win32(code: u32) -> (error: OsError)
        ensures
            error.code == hresult_of_win32(code),
    {
        OsError { code: hresult_from_win32(code) }
    }

    /// The `HRESULT` of the error.
    pub fn code(&self) -> (code: i32)
        ensures
            code == self.code,
    {
        self.code
    }
}

/// What can go wrong in this crate.
#[derive(Debug, Clone, Copy, PartialEq, Eq, Structural)]
pub enum Error {
    /// The operating system reported a failure.
    Windows(OsError),
    /// A buffer of the operating system held no valid UTF-16.
    InvalidString,
}

impl Error {
    /// The text that describes the error.
    pub open spec fn message_of(self) -> Seq<char> {
        match self {
            Error::Windows(_) => "An internal windows error occurred"@,
            Error::InvalidString => "The OS returned an invalid string"@,
        }
    }

    /// The text that describes the error.
    pub fn message(&self) -> (text: &'static str)
        ensures
            text@ == self.message_of(),
    {
        match self {
            Error::Windows(_) => "An internal windows error occurred",
            Error::InvalidString => "The OS returned an invalid string",
        }
    }
}

impl From<OsError> for Error {
    fn from(error: OsError) -> (converted: Error) {
        Error::Windows(error)
    }
}

impl vstd::std_specs::convert::FromSpecImpl<OsError> for Error {
    open spec fn obeys_from_spec() -> bool {
        true
    }

    open spec fn from_spec(error: OsError) -> Error {
        Error::Windows(error)
    }
}

} // verus!
