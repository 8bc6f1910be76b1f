use textreactor::error::{
    Error, OsError, ERROR_INSUFFICIENT_BUFFER, ERROR_INVALID_WINDOW_HANDLE,
    ERROR_RESOURCE_LANG_NOT_FOUND, ERROR_RESOURCE_TYPE_NOT_FOUND, ERROR_SUCCESS,
};
use textreactor::util::{
    check_error_code, check_handle, check_result, hiword, last_error_result, loword,
};

#[test]
fn loword_takes_the_low_half() {
    assert_eq!(loword(0x1234_5678), 0x5678);
    assert_eq!(loword(0), 0);
    assert_eq!(loword(0xffff_ffff), 0xffff);
    assert_eq!(loword(0x0001_0000), 0);
}

#[test]
fn hiword_takes_the_high_half() {
    assert_eq!(hiword(0x1234_5678), 0x1234);
    assert_eq!(hiword(0), 0);
    assert_eq!(hiword(0xffff_ffff), 0xffff);
    assert_eq!(hiword(0x0000_ffff), 0);
}

#[test]
fn words_make_up_the_double_word() {
    for l in [0u32, 1, 0xffff, 0x1_0000, 0x1234_5678, 0x8000_0000, 0xffff_ffff] {
        assert_eq!(((hiword(l) as u32) << 16) | loword(l) as u32, l);
    }
}

#[test]
fn win32_status_becomes_hresult() {
    assert_eq!(OsError::from_win32(5).code, 0x8007_0005u32 as i32);
    assert_eq!(OsError::from_win32(ERROR_INSUFFICIENT_BUFFER).code, 0x8007_007Au32 as i32);
    assert_eq!(OsError::from_win32(ERROR_INVALID_WINDOW_HANDLE).code, 0x8007_0578u32 as i32);
    assert_eq!(OsError::from_win32(ERROR_RESOURCE_TYPE_NOT_FOUND).code, 0x8007_0715u32 as i32);
    assert_eq!(OsError::from_win32(ERROR_RESOURCE_LANG_NOT_FOUND).code, 0x8007_0717u32 as i32);
}

#[test]
fn win32_status_zero_is_hresult_zero() {
    assert_eq!(OsError::from_win32(ERROR_SUCCESS).code, 0);
}

#[test]
fn win32_status_with_top_bit_is_kept() {
    assert_eq!(OsError::from_win32(0x8000_4005).code, 0x8000_4005u32 as i32);
    assert_eq!(OsError::from_win32(0xffff_ffff).code, -1);
}

#[test]
fn win32_status_is_cut_to_sixteen_bits() {
    assert_eq!(OsError::from_win32(0x0001_0005).code, 0x8007_0005u32 as i32);
    assert_eq!(OsError::from_win32(0x7fff_ffff).code, 0x8007_ffffu32 as i32);
}

#[test]
fn os_error_keeps_its_hresult() {
    let error = OsError::from_hresult(-2147024891);
    assert_eq!(error.code(), -2147024891);
    assert_eq!(error, OsError::from_win32(5));
}

#[test]
fn error_messages() {
    assert_eq!(
        Error::Windows(OsError::from_win32(5)).message(),
        "An internal windows error occurred"
    );
    assert_eq!(Error::InvalidString.message(), "The OS returned an invalid string");
}

#[test]
fn os_error_converts_into_error() {
    let error = OsError::from_win32(5);
    assert_eq!(Error::from(error), Error::Windows(error));
}

#[test]
fn last_error_zero_is_success() {
    assert_eq!(last_error_result(0), Ok(()));
}

#[test]
fn last_error_is_the_error() {
    assert_eq!(last_error_result(5), Err(OsError { code: 0x8007_0005u32 as i32 }));
}

#[test]
fn check_result_hands_the_value_on() {
    assert_eq!(check_result(42u32, 0), Ok(42));
    assert_eq!(check_result("text", 0), Ok("text"));
}

#[test]
fn check_result_drops_the_value_on_an_error() {
    assert_eq!(check_result(42u32, 1813), Err(OsError { code: 0x8007_0715u32 as i32 }));
}

#[test]
fn check_handle_accepts_a_valid_handle() {
    assert_eq!(check_handle(0x1234, 0), Ok(0x1234));
    assert_eq!(check_handle(0x1234, 5), Ok(0x1234));
    assert_eq!(check_handle(1, 0), Ok(1));
    assert_eq!(check_handle(-2, 0), Ok(-2));
}

#[test]
fn check_handle_reports_the_last_error() {
    assert_eq!(check_handle(0, 5), Err(OsError { code: 0x8007_0005u32 as i32 }));
    assert_eq!(check_handle(-1, 6), Err(OsError { code: 0x8007_0006u32 as i32 }));
}

#[test]
fn check_handle_without_a_status_is_an_invalid_window_handle() {
    assert_eq!(check_handle(0, 0), Err(OsError { code: 0x8007_0578u32 as i32 }));
    assert_eq!(check_handle(-1, 0), Err(OsError { code: 0x8007_0578u32 as i32 }));
}

#[test]
fn check_error_code_hands_other_values_on() {
    assert_eq!(check_error_code(0xC001, 0, 0), Ok(0xC001));
    assert_eq!(check_error_code(7, 0, 5), Ok(7));
}

#[test]
fn check_error_code_reports_the_last_error() {
    assert_eq!(check_error_code(0, 0, 1410), Err(OsError { code: 0x8007_0582u32 as i32 }));
}
