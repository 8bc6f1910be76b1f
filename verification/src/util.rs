//! Helpers on machine words and on the status that a call leaves behind.

use crate::error::{hresult_of_win32, OsError, ERROR_INVALID_WINDOW_HANDLE};
use vstd::prelude::*;

verus! {

/// The low 16 bits of a 32-bit word.
pub open spec fn loword_of(l: u32) -> u16 {
    (l % 0x1_0000) as u16
}

/// The high 16 bits of a 32-bit word.
pub open spec fn hiword_of(l: u32) -> u16 {
    (l / 0x1_0000) as u16
}

/// Retrieves the lower word (16 bits) of a double word (32 bits).
pub fn loword(l: u32) -> (w: u16)
    ensures
        w == loword_of(l),
{
    assert(l & 0xffff == l % 0x1_0000) by (bit_vector);
    (l & 0xffff) as u16
}

/// Retrieves the higher word (16 bits) of a double word (32 bits).
pub fn hiword(l: u32) -> (w: u16)
    ensures
        w == hiword_of(l),
{
    assert((l >> 16) & 0xffff == l / 0x1_0000) by (bit_vector);
    ((l >> 16) & 0xffff) as u16
}

/// The identifier of the menu item or control that a command message
/// names: the low word of the parameter's low 32 bits.
pub fn command_id(wparam: usize) -> (id: u16)
    ensures
        id == loword_of(wparam as u32),
{
    loword(#[verifier::truncate] (wparam as u32))
}

/// The two words of a double word hold all of it: the high word counts
/// units of 65536, the low word the rest.
pub proof fn lemma_words_make_dword(l: u32)
    ensures
        hiword_of(l) * 0x1_0000 + loword_of(l) == l,
{
}

/// A double word is found again from its two words.
pub proof fn lemma_words_of_dword(high: u16, low: u16)
    ensures
        hiword_of((high * 0x1_0000 + low) as u32) == high,
        loword_of((high * 0x1_0000 + low) as u32) == low,
{
}

/// Whether a raw handle value is one of the two that name nothing.
pub open spec fn invalid_handle(raw: isize) -> bool {
    raw == 0 || raw == -1
}

/// Calls `is_invalid` of `windows::Win32::Foundation::HANDLE` on the
/// handle with the given raw value.  That method answers `true` for the
/// values `0` and `-1` and `false` for every other.
#[verifier::external_body]
fn handle_is_invalid(raw: isize) -> (invalid: bool)
    ensures
        invalid == invalid_handle(raw),
{
    windows::Win32::Foundation::HANDLE(raw).is_invalid()
}

/// Reads the thread's last-error value as the outcome of the call before
/// it: zero is success, any other status is that error.
pub fn last_error_result(last_error: u32) -> (outcome: Result<(), OsError>)
    ensures
        last_error == 0 ==> outcome == Ok::<(), OsError>(()),
        last_error != 0 ==> outcome == Err::<(), OsError>(
            OsError { code: hresult_of_win32(last_error) },
        ),
{
    let error = OsError::from_win32(last_error);
    if error.code() == 0 {
        Ok(())
    } else {
        Err(error)
    }
}

/// Judges a call whose only sign of failure is the last-error value that
/// it leaves: with a zero status the call's value is handed on, with any
/// other the value is dropped and the status becomes the error.
pub fn check_result<R>(value: R, last_error: u32) -> (outcome: Result<R, OsError>)
    ensures
        last_error == 0 ==> outcome == Ok::<R, OsError>(value),
        last_error != 0 ==> outcome == Err::<R, OsError>(
            OsError { code: hresult_of_win32(last_error) },
        ),
{
    if last_error == 0 {
        Ok(value)
    } else {
        Err(OsError::from_win32(last_error))
    }
}

/// Judges a call that returns a handle.  A valid handle is handed on.
/// For an invalid one the last-error value becomes the error, and where
/// that value is zero the error is that of an invalid window handle.
pub fn check_handle(handle: isize, last_error: u32) -> (outcome: Result<isize, OsError>)
    ensures
        !invalid_handle(handle) ==> outcome == Ok::<isize, OsError>(handle),
        invalid_handle(handle) && last_error != 0 ==> outcome == Err::<isize, OsError>(
            OsError { code: hresult_of_win32(last_error) },
        ),
        invalid_handle(handle) && last_error == 0 ==> outcome == Err::<isize, OsError>(
            OsError { code: hresult_of_win32(ERROR_INVALID_WINDOW_HANDLE) },
        ),
{
    if handle_is_invalid(handle) {
        match last_error_result(last_error) {
            Err(error) => Err(error),
            Ok(_) => Err(OsError::from_win32(ERROR_INVALID_WINDOW_HANDLE)),
        }
    } else {
        Ok(handle)
    }
}

/// Judges a call that returns one reserved value on failure.  Any other
/// value is handed on; the reserved one gives the last-error value as the
/// error.  A failed call that left no status is a caller's mistake.
pub fn check_error_code(return_value: u16, error: u16, last_error: u32) -> (outcome: Result<
    u16,
    OsError,
>)
    requires
        return_value == error ==> last_error != 0,
    ensures
        return_value != error ==> outcome == Ok::<u16, OsError>(return_value),
        return_value == error ==> outcome == Err::<u16, OsError>(
            OsError { code: hresult_of_win32(last_error) },
        ),
{
    if return_value == error {
        Err(OsError::from_win32(last_error))
    } else {
        Ok(return_value)
    }
}

} // verus!
