//! Records of processes and modules, and the rules by which a process is
//! described: its architecture and the path of its executable.

use crate::error::{hresult_of_win32, Error, OsError, ERROR_INSUFFICIENT_BUFFER};
use crate::util::invalid_handle;
use crate::wide::{decode_nul_terminated, is_utf16, until_nul, utf16_decoding, utf16_encoding};
use vstd::prelude::*;

verus! {

/// What a process record holds: the id of the process and the buffer
/// with the name of its executable.
pub struct ProcessEntryView {
    pub process_id: u32,
    pub exe_file: Seq<u16>,
}

/// One process of a snapshot, copied out of the operating system's
/// record.  It owns nothing of the snapshot and outlives it.
pub struct ProcessEntry {
    process_id: u32,
    exe_file: [u16; 260],
}

impl View for ProcessEntry {
    type V = ProcessEntryView;

    closed spec fn view(&self) -> ProcessEntryView {
        ProcessEntryView { process_id: self.process_id, exe_file: self.exe_file@ }
    }
}

impl ProcessEntry {
    /// The record of the process with the given id and name buffer.
    pub fn new(process_id: u32, exe_file: [u16; 260]) -> (entry: ProcessEntry)
        ensures
            entry@ == (ProcessEntryView { process_id, exe_file: exe_file@ }),
    {
        ProcessEntry { process_id, exe_file }
    }

    /// Returns the process id of the process.
    pub fn process_id(&self) -> (id: u32)
        ensures
            id == self@.process_id,
    {
        self.process_id
    }

    /// Returns the name of the process: what the name buffer holds before
    /// its first zero, decoded as UTF-16.  A name that is not well-formed
    /// UTF-16 gives `Error::InvalidString`.
    pub fn process_name(&self) -> (name: Result<String, Error>)
        ensures
            is_utf16(until_nul(self@.exe_file)) <==> name is Ok,
            name matches Ok(text) ==> text@ == utf16_decoding(until_nul(self@.exe_file))
                && utf16_encoding(text@) == until_nul(self@.exe_file),
            name matches Err(error) ==> error == Error::InvalidString,
    {
        decode_nul_terminated(self.exe_file.as_slice())
    }

    /// Returns the name buffer as the operating system filled it.
    pub fn process_name_buf(&self) -> (buffer: [u16; 260])
        ensures
            buffer@ == self@.exe_file,
    {
        self.exe_file
    }
}

/// What a module record holds: the id of the module, the buffer with its
/// name and the address at which it is loaded.
pub struct ModuleView {
    pub module_id: u32,
    pub module_name: Seq<u16>,
    pub base_address: usize,
}

/// One module of a process, copied out of the operating system's record.
pub struct Module {
    module_id: u32,
    module_name: [u16; 256],
    base_address: usize,
}

impl View for Module {
    type V = ModuleView;

    closed spec fn view(&self) -> ModuleView {
        ModuleView {
            module_id: self.module_id,
            module_name: self.module_name@,
            base_address: self.base_address,
        }
    }
}

impl Module {
    /// The record of the module with the given id, name buffer and load
    /// address.
    pub fn new(module_id: u32, module_name: [u16; 256], base_address: usize) -> (module: Module)
        ensures
            module@ == (ModuleView { module_id, module_name: module_name@, base_address }),
    {
        Module { module_id, module_name, base_address }
    }

    /// Returns the module id of the module.
    pub fn module_id(&self) -> (id: u32)
        ensures
            id == self@.module_id,
    {
        self.module_id
    }

    /// Returns the name of the module: what the name buffer holds before
    /// its first zero, decoded as UTF-16.  A name that is not well-formed
    /// UTF-16 gives `Error::InvalidString`.
    pub fn module_name(&self) -> (name: Result<String, Error>)
        ensures
            is_utf16(until_nul(self@.module_name)) <==> name is Ok,
            name matches Ok(text) ==> text@ == utf16_decoding(until_nul(self@.module_name))
                && utf16_encoding(text@) == until_nul(self@.module_name),
            name matches Err(error) ==> error == Error::InvalidString,
    {
        decode_nul_terminated(self.module_name.as_slice())
    }

    /// Returns the address at which the module is loaded.  The library
    /// never reads through it: it is the base for the caller's own reads
    /// of the process's memory.
    pub fn module_addr(&self) -> (address: usize)
        ensures
            address == self@.base_address,
    {
        self.base_address
    }
}

/// One step of a walk over a snapshot.  A record that the operating
/// system handed out is the next item; a failed step, whatever its
/// status, ends the walk like the end of the snapshot does.
pub fn snapshot_step<T>(step: Result<T, OsError>) -> (item: Option<T>)
    ensures
        step matches Ok(record) ==> item == Some(record),
        step is Err ==> item is None,
{
    match step {
        Ok(record) => Some(record),
        Err(_) => None,
    }
}

/// The access that is asked for when a process is opened.
#[derive(Debug, Clone, Copy, PartialEq, Eq, Structural)]
pub enum ProcessAccess {
    /// Every right on the process, reading and writing its memory among
    /// them.
    Full,
    /// The right to query the process, and no other.
    QueryOnly,
}

/// The access mask of every right on a process.
pub const PROCESS_ALL_ACCESS: u32 = 0x1F_FFFF;

/// The access mask of the right to query a process.
pub const PROCESS_QUERY_INFORMATION: u32 = 0x0400;

impl ProcessAccess {
    /// The access mask that stands for the access.
    pub open spec fn mask_of(self) -> u32 {
        match self {
            ProcessAccess::Full => PROCESS_ALL_ACCESS,
            ProcessAccess::QueryOnly => PROCESS_QUERY_INFORMATION,
        }
    }

    /// The access mask that is handed to the operating system.
    pub fn access_mask(&self) -> (mask: u32)
        ensures
            mask == self.mask_of(),
    {
        match self {
            ProcessAccess::Full => PROCESS_ALL_ACCESS,
            ProcessAccess::QueryOnly => PROCESS_QUERY_INFORMATION,
        }
    }
}

/// The architecture a process runs as.
#[derive(Debug, Clone, Copy, PartialEq, Eq, Structural)]
pub enum ProcessArchitecture {
    X64,
    X86,
}

impl ProcessArchitecture {
    /// The architecture that an answer of the emulation-layer query stands
    /// for.  The query asks whether the process runs under the 32-bit
    /// emulation of a 64-bit system: a process that does is a 32-bit
    /// process, one that does not runs as the system itself does.
    pub open spec fn of_query(answer: bool) -> ProcessArchitecture {
        if answer {
            ProcessArchitecture::X86
        } else {
            ProcessArchitecture::X64
        }
    }

    /// The architecture of a process on a 64-bit system, from the answer
    /// to the question whether it runs under 32-bit emulation: `X86` for
    /// `true`, `X64` for `false`.
    pub fn from_query(answer: bool) -> (arch: ProcessArchitecture)
        ensures
            arch == Self::of_query(answer),
    {
        match answer {
            true => ProcessArchitecture::X86,
            false => ProcessArchitecture::X64,
        }
    }

    /// The name under which the architecture is shown.
    pub open spec fn label_of(self) -> Seq<char> {
        match self {
            ProcessArchitecture::X64 => "x64"@,
            ProcessArchitecture::X86 => "x86"@,
        }
    }

    /// The name under which the architecture is shown in a list of
    /// processes.
    pub fn label(&self) -> (name: &'static str)
        ensures
            name@ == self.label_of(),
    {
        match self {
            ProcessArchitecture::X64 => "x64",
            ProcessArchitecture::X86 => "x86",
        }
    }
}

/// Judges a read or a write of a process's memory.  Such a transfer is
/// done as a whole or not at all: where the operating system reports
/// success, the number of bytes that it moved is handed on, and where it
/// reports failure, its last-error value is the error, however many
/// bytes it counted.
pub fn transfer_result(succeeded: bool, transferred: usize, last_error: u32) -> (outcome: Result<
    usize,
    Error,
>)
    ensures
        succeeded ==> outcome == Ok::<usize, Error>(transferred),
        !succeeded ==> outcome == Err::<usize, Error>(
            Error::Windows(OsError { code: hresult_of_win32(last_error) }),
        ),
{
    if succeeded {
        Ok(transferred)
    } else {
        Err(Error::Windows(OsError::from_win32(last_error)))
    }
}

/// Calls `is_invalid` of `windows::Win32::UI::WindowsAndMessaging::HICON`
/// on the icon handle with the given raw value.  That method answers
/// `true` for the values `0` and `-1` and `false` for every other.
#[verifier::external_body]
fn icon_is_invalid(raw: isize) -> (invalid: bool)
    ensures
        invalid == invalid_handle(raw),
{
    windows::Win32::UI::WindowsAndMessaging::HICON(raw).is_invalid()
}

/// Reads what the extraction of an executable's first small icon left in
/// the handle that it was given: the icon, or nothing where the
/// executable holds no icon and the handle names none.  An icon that is
/// handed out belongs to the caller, who is to release it.
pub fn extracted_icon(raw: isize) -> (icon: Option<isize>)
    ensures
        invalid_handle(raw) ==> icon is None,
        !invalid_handle(raw) ==> icon == Some(raw),
{
    if icon_is_invalid(raw) {
        None
    } else {
        Some(raw)
    }
}

/// The number of code units that the first query for an executable's
/// path offers.
pub const INITIAL_PATH_CAPACITY: u32 = 1024;

/// The largest number of code units that a query for an executable's
/// path offers: no path of the operating system is longer.
pub const MAX_PATH_CAPACITY: u32 = 32768;

/// What to do after one query for the path of a process's executable.
#[derive(Debug, Clone, PartialEq, Eq)]
pub enum PathQuery {
    /// The path is known.
    Done { path: Vec<u16> },
    /// The buffer was too small: ask again with this many code units.
    Retry { capacity: u32 },
    /// The path cannot be had.
    Failed { error: Error },
}

/// The capacity that follows one that proved too small: twice as much,
/// and the initial capacity after an empty buffer.
pub open spec fn grown_capacity(capacity: int) -> int {
    if capacity == 0 {
        INITIAL_PATH_CAPACITY as int
    } else {
        2 * capacity
    }
}

/// Whether a failed query for a path is to be repeated with a larger
/// buffer: the operating system found the buffer too small, and the next
/// capacity is within the limit.
pub open spec fn path_query_retries(capacity: int, error: OsError) -> bool {
    error.code == hresult_of_win32(ERROR_INSUFFICIENT_BUFFER) && grown_capacity(capacity)
        <= MAX_PATH_CAPACITY
}

/// Decides how a query for the path of a process's executable goes on.
///
/// `buffer` is the buffer that was offered and `outcome` what the
/// operating system answered: the number of code units it wrote, or its
/// error.  A written path is cut out of the buffer.  A buffer that was
/// too small is doubled and the query repeated, up to
/// `MAX_PATH_CAPACITY`; beyond that, and for every other error, the
/// operating system's error is handed on.
pub fn executable_path_step(buffer: &[u16], outcome: Result<u32, OsError>) -> (next: PathQuery)
    requires
        outcome matches Ok(written) ==> written <= buffer@.len(),
    ensures
        outcome matches Ok(written) ==> (next matches PathQuery::Done { path } && path@
            == buffer@.take(written as int)),
        outcome matches Err(error) ==> (if path_query_retries(buffer@.len() as int, error) {
            next matches PathQuery::Retry { capacity } && capacity == grown_capacity(
                buffer@.len() as int,
            )
        } else {
            next matches PathQuery::Failed { error: failure } && failure == Error::Windows(error)
        }),
{
    match outcome {
        Ok(written) => {
            let mut path: Vec<u16> = Vec::new();
            let mut i: usize = 0;
            while i < written as usize
                invariant
                    written <= buffer@.len(),
                    0 <= i <= written,
                    path@ == buffer@.take(i as int),
                decreases written - i,
            {
                path.push(buffer[i]);
                i += 1;
                assert(path@ =~= buffer@.take(i as int));
            }
            PathQuery::Done { path }
        },
        Err(error) => {
            let too_small: OsError = OsError::from_win32(ERROR_INSUFFICIENT_BUFFER);
            let len: usize = buffer.len();
            if error.code() == too_small.code() && len <= (MAX_PATH_CAPACITY / 2) as usize {
                if len == 0 {
                    PathQuery::Retry { capacity: INITIAL_PATH_CAPACITY }
                } else {
                    PathQuery::Retry { capacity: 2 * (len as u32) }
                }
            } else {
                PathQuery::Failed { error: Error::Windows(error) }
            }
        },
    }
}

/// A repeated query offers more than the one before it and never more
/// than `MAX_PATH_CAPACITY`: no more than a handful of queries are made
/// for one path.
pub proof fn lemma_path_query_grows(capacity: int, error: OsError)
    requires
        0 <= capacity,
        path_query_retries(capacity, error),
    ensures
        capacity < grown_capacity(capacity) <= MAX_PATH_CAPACITY,
{
}

} // verus!
