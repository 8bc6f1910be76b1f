use textreactor::error::{Error, OsError, ERROR_INSUFFICIENT_BUFFER};
use textreactor::memory::{
    executable_path_step, snapshot_step, transfer_result, Module, PathQuery,
    ProcessArchitecture, ProcessEntry, INITIAL_PATH_CAPACITY, MAX_PATH_CAPACITY,
};

fn name_buffer<const N: usize>(name: &[u16]) -> [u16; N] {
    let mut buffer = [0u16; N];
    buffer[..name.len()].copy_from_slice(name);
    buffer
}

fn wide(text: &str) -> Vec<u16> {
    text.encode_utf16().collect()
}

#[test]
fn process_entry_keeps_its_id() {
    let entry = ProcessEntry::new(4242, name_buffer(&wide("explorer.exe")));
    assert_eq!(entry.process_id(), 4242);
}

#[test]
fn process_name_ends_at_the_terminator() {
    let entry = ProcessEntry::new(1, name_buffer(&wide("explorer.exe")));
    assert_eq!(entry.process_name(), Ok(String::from("explorer.exe")));
}

#[test]
fn process_name_may_fill_the_buffer() {
    let name = [0x61u16; 260];
    let entry = ProcessEntry::new(1, name);
    assert_eq!(entry.process_name(), Ok("a".repeat(260)));
}

#[test]
fn process_name_may_be_empty() {
    let entry = ProcessEntry::new(0, [0u16; 260]);
    assert_eq!(entry.process_name(), Ok(String::new()));
}

#[test]
fn process_name_that_is_no_utf16_is_rejected() {
    let entry = ProcessEntry::new(1, name_buffer(&[0x61, 0xD800, 0x62]));
    assert_eq!(entry.process_name(), Err(Error::InvalidString));
}

#[test]
fn process_name_buffer_is_handed_out_whole() {
    let buffer: [u16; 260] = name_buffer(&[0x61, 0, 0x62]);
    let entry = ProcessEntry::new(1, buffer);
    assert_eq!(entry.process_name_buf(), buffer);
}

#[test]
fn module_record() {
    let module = Module::new(7, name_buffer(&wide("kernel32.dll")), 0x7ff8_0000);
    assert_eq!(module.module_id(), 7);
    assert_eq!(module.module_name(), Ok(String::from("kernel32.dll")));
    assert_eq!(module.module_addr(), 0x7ff8_0000);
}

#[test]
fn module_name_that_is_no_utf16_is_rejected() {
    let module = Module::new(7, name_buffer(&[0xDC00]), 0);
    assert_eq!(module.module_name(), Err(Error::InvalidString));
}

#[test]
fn a_record_is_the_next_item() {
    assert_eq!(snapshot_step(Ok(17u32)), Some(17));
}

#[test]
fn a_failed_step_ends_the_walk() {
    assert_eq!(snapshot_step::<u32>(Err(OsError::from_win32(18))), None);
    assert_eq!(snapshot_step::<u32>(Err(OsError::from_win32(5))), None);
}

#[test]
fn architecture_of_the_query() {
    assert_eq!(ProcessArchitecture::from_query(true), ProcessArchitecture::X86);
    assert_eq!(ProcessArchitecture::from_query(false), ProcessArchitecture::X64);
}

#[test]
fn an_emulated_process_is_shown_as_x86() {
    assert_eq!(ProcessArchitecture::from_query(true).label(), "x86");
    assert_eq!(ProcessArchitecture::from_query(false).label(), "x64");
}

#[test]
fn a_written_path_is_cut_out_of_the_buffer() {
    let mut buffer = vec![0u16; INITIAL_PATH_CAPACITY as usize];
    let path = wide("C:\\Windows\\explorer.exe");
    buffer[..path.len()].copy_from_slice(&path);
    match executable_path_step(&buffer, Ok(path.len() as u32)) {
        PathQuery::Done { path: found } => assert_eq!(found, path),
        _ => panic!("the path was written"),
    }
}

#[test]
fn a_path_may_fill_the_buffer() {
    let buffer = vec![0x61u16; 8];
    match executable_path_step(&buffer, Ok(8)) {
        PathQuery::Done { path } => assert_eq!(path, buffer),
        _ => panic!("the path was written"),
    }
    match executable_path_step(&buffer, Ok(0)) {
        PathQuery::Done { path } => assert!(path.is_empty()),
        _ => panic!("the path was written"),
    }
}

#[test]
fn a_buffer_that_is_too_small_is_doubled() {
    let too_small = OsError::from_win32(ERROR_INSUFFICIENT_BUFFER);
    let mut capacity = INITIAL_PATH_CAPACITY;
    let mut asked = vec![capacity];
    loop {
        let buffer = vec![0u16; capacity as usize];
        match executable_path_step(&buffer, Err(too_small)) {
            PathQuery::Retry { capacity: next } => {
                assert_eq!(next, 2 * capacity);
                capacity = next;
                asked.push(next);
            }
            PathQuery::Failed { error } => {
                assert_eq!(error, Error::Windows(too_small));
                break;
            }
            PathQuery::Done { .. } => panic!("nothing was written"),
        }
    }
    assert_eq!(asked, vec![1024, 2048, 4096, 8192, 16384, 32768]);
    assert_eq!(capacity, MAX_PATH_CAPACITY);
}

#[test]
fn an_empty_buffer_grows_to_the_initial_capacity() {
    let too_small = OsError::from_win32(ERROR_INSUFFICIENT_BUFFER);
    match executable_path_step(&[], Err(too_small)) {
        PathQuery::Retry { capacity } => assert_eq!(capacity, 1024),
        _ => panic!("the query is to be repeated"),
    }
}

#[test]
fn other_errors_end_the_query() {
    let denied = OsError::from_win32(5);
    let buffer = vec![0u16; 1024];
    match executable_path_step(&buffer, Err(denied)) {
        PathQuery::Failed { error } => assert_eq!(error, Error::Windows(denied)),
        _ => panic!("access was denied"),
    }
}

#[test]
fn a_transfer_that_succeeded_gives_its_count() {
    assert_eq!(transfer_result(true, 4, 0), Ok(4));
    assert_eq!(transfer_result(true, 0, 0), Ok(0));
    assert_eq!(transfer_result(true, 4096, 5), Ok(4096));
}

#[test]
fn a_transfer_that_failed_gives_the_last_error() {
    let denied = Err(Error::Windows(OsError { code: 0x8007_0005u32 as i32 }));
    assert_eq!(transfer_result(false, 0, 5), denied);
    let partial = Err(Error::Windows(OsError { code: 0x8007_012Bu32 as i32 }));
    assert_eq!(transfer_result(false, 2, 299), partial);
}

#[test]
fn a_retry_is_told_apart_from_a_failure() {
    let buffer = vec![0u16; 1024];
    assert_eq!(
        executable_path_step(&buffer, Err(OsError::from_win32(ERROR_INSUFFICIENT_BUFFER))),
        PathQuery::Retry { capacity: 2048 }
    );
    assert_eq!(
        executable_path_step(&buffer, Ok(2)),
        PathQuery::Done { path: vec![0, 0] }
    );
}

#[test]
fn architecture_labels() {
    assert_eq!(ProcessArchitecture::X64.label(), "x64");
    assert_eq!(ProcessArchitecture::X86.label(), "x86");
}
