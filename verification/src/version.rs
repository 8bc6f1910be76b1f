//! The version resource of an executable: its translation table, the
//! keys under which its string fields are found, and their values.
//!
//! The resource itself is searched by the operating system.  This module
//! says what to ask it for and reads what it answers.

use crate::byte_order::{u16_from_bytes, u16_of_bytes, ByteOrder};
use crate::error::{
    hresult_of_win32, Error, OsError, ERROR_RESOURCE_LANG_NOT_FOUND, ERROR_RESOURCE_TYPE_NOT_FOUND,
};
use crate::wide::{
    decode_nul_terminated, is_utf16, units_of_bytes, until_nul, utf16_decoding, wide_from_bytes,
};
use std::sync::Arc;
use vstd::prelude::*;
use vstd::string::StringExecFns;

verus! {

/// The named string fields of a version resource.
#[derive(Debug, Clone, Copy, PartialEq, Eq, Structural)]
pub enum FileInfoField {
    Comments,
    InternalName,
    ProductName,
    CompanyName,
    LegalCopyright,
    ProductVersion,
    FileDescription,
    LegalTrademarks,
    PrivateBuild,
    FileVersion,
    OriginalFilename,
    SpecialBuild,
}

impl FileInfoField {
    /// The name under which the resource holds the field.
    pub open spec fn name_of(self) -> Seq<char> {
        match self {
            FileInfoField::Comments => "Comments"@,
            FileInfoField::InternalName => "InternalName"@,
            FileInfoField::ProductName => "ProductName"@,
            FileInfoField::CompanyName => "CompanyName"@,
            FileInfoField::LegalCopyright => "LegalCopyright"@,
            FileInfoField::ProductVersion => "ProductVersion"@,
            FileInfoField::FileDescription => "FileDescription"@,
            FileInfoField::LegalTrademarks => "LegalTrademarks"@,
            FileInfoField::PrivateBuild => "PrivateBuild"@,
            FileInfoField::FileVersion => "FileVersion"@,
            FileInfoField::OriginalFilename => "OriginalFilename"@,
            FileInfoField::SpecialBuild => "SpecialBuild"@,
        }
    }

    /// The name under which the resource holds the field.
    pub fn field_name(&self) -> (name: &'static str)
        ensures
            name@ == self.name_of(),
    {
        match self {
            Self::Comments => "Comments",
            Self::InternalName => "InternalName",
            Self::ProductName => "ProductName",
            Self::CompanyName => "CompanyName",
            Self::LegalCopyright => "LegalCopyright",
            Self::ProductVersion => "ProductVersion",
            Self::FileDescription => "FileDescription",
            Self::LegalTrademarks => "LegalTrademarks",
            Self::PrivateBuild => "PrivateBuild",
            Self::FileVersion => "FileVersion",
            Self::OriginalFilename => "OriginalFilename",
            Self::SpecialBuild => "SpecialBuild",
        }
    }
}

/// One record of a translation table: a language and a code page in
/// which the resource holds its strings.
#[derive(Debug, Clone, Copy, PartialEq, Eq, Structural)]
pub struct TranslationEntry {
    pub language: u16,
    pub code_page: u16,
}

/// The key under which a version resource holds its translation table.
pub open spec fn translation_key_of() -> Seq<char> {
    "\\VarFileInfo\\Translation"@
}

/// The key under which a version resource holds its translation table.
pub fn translation_key() -> (key: &'static str)
    ensures
        key@ == translation_key_of(),
{
    "\\VarFileInfo\\Translation"
}

/// The record that stands at a place of a translation table: four bytes,
/// the language in the first two and the code page in the last two.
pub open spec fn translation_at(order: ByteOrder, table: Seq<u8>, index: int) -> TranslationEntry {
    TranslationEntry {
        language: u16_of_bytes(order, table.subrange(4 * index, 4 * index + 2)),
        code_page: u16_of_bytes(order, table.subrange(4 * index + 2, 4 * index + 4)),
    }
}

/// The records of a translation table, in their order.
pub open spec fn translations_of(order: ByteOrder, table: Seq<u8>) -> Seq<TranslationEntry> {
    Seq::new((table.len() / 4) as nat, |index: int| translation_at(order, table, index))
}

/// Calls `bytemuck::pod_read_unaligned` for an array of four bytes.
/// That function copies the bytes of the slice over the array as they
/// lie in memory, wherever the slice starts, and panics on a slice of
/// another length than the array's.
#[verifier::external_body]
fn read_unaligned_record(record: &[u8]) -> (bytes: [u8; 4])
    requires
        record@.len() == 4,
    ensures
        bytes@ == record@,
{
    bytemuck::pod_read_unaligned::<[u8; 4]>(record)
}

/// Reads a translation table: one record for every four bytes, with no
/// demand on where in memory the table lies.  The two numbers of a
/// record are read in the given byte order; the operating system writes
/// them in its own.  A table is made of whole records.
pub fn parse_translations(order: ByteOrder, table: &[u8]) -> (entries: Vec<TranslationEntry>)
    requires
        table@.len() % 4 == 0,
    ensures
        entries@ == translations_of(order, table@),
{
    let count: usize = table.len() / 4;
    let mut entries: Vec<TranslationEntry> = Vec::new();
    let mut i: usize = 0;
    while i < count
        invariant
            4 * count == table@.len() <= usize::MAX,
            0 <= i <= count,
            entries@.len() == i,
            forall|j: int| 0 <= j < i ==> entries@[j] == translation_at(order, table@, j),
        decreases count - i,
    {
        let record: [u8; 4] = read_unaligned_record(
            vstd::slice::slice_subrange(table, 4 * i, 4 * i + 4),
        );
        let language: [u8; 2] = [record[0], record[1]];
        let code_page: [u8; 2] = [record[2], record[3]];
        assert(language@ =~= table@.subrange(4 * i, 4 * i + 2));
        assert(code_page@ =~= table@.subrange(4 * i + 2, 4 * i + 4));
        entries.push(
            TranslationEntry {
                language: u16_from_bytes(order, language),
                code_page: u16_from_bytes(order, code_page),
            },
        );
        i += 1;
    }
    assert(entries@ =~= translations_of(order, table@));
    entries
}

/// What a file description holds: the bytes of the version resource and
/// the language and code page of one of its translations.
pub struct FileInfoView {
    pub data: Seq<u8>,
    pub language: u16,
    pub code_page: u16,
}

/// One translation of a version resource.  Every description of one
/// resource shares the bytes of that resource and keeps them alive.
pub struct FileInfo {
    data: Arc<Vec<u8>>,
    language: u16,
    code_page: u16,
}

impl View for FileInfo {
    type V = FileInfoView;

    closed spec fn view(&self) -> FileInfoView {
        FileInfoView { data: self.data@, language: self.language, code_page: self.code_page }
    }
}

/// The descriptions that a version resource gives rise to: one for each
/// record of its translation table, and none where it has no table.
pub open spec fn descriptions_of(
    order: ByteOrder,
    data: Seq<u8>,
    table: Option<Seq<u8>>,
) -> Seq<FileInfoView> {
    match table {
        None => Seq::empty(),
        Some(bytes) => Seq::new(
            (bytes.len() / 4) as nat,
            |index: int|
                FileInfoView {
                    data,
                    language: translation_at(order, bytes, index).language,
                    code_page: translation_at(order, bytes, index).code_page,
                },
        ),
    }
}

/// The views of some file descriptions.
pub open spec fn views_of(infos: Seq<FileInfo>) -> Seq<FileInfoView> {
    Seq::new(infos.len(), |index: int| infos[index]@)
}

/// Whether some of the descriptions is of the given language and code
/// page.
pub open spec fn has_translation(infos: Seq<FileInfoView>, language: u16, code_page: u16) -> bool {
    exists|index: int|
        0 <= index < infos.len() && (#[trigger] infos[index]).language == language
            && infos[index].code_page == code_page
}

/// The digit that stands for a number below sixteen, in lower case.
pub open spec fn hex_digit(value: int) -> char {
    if value < 10 {
        ('0' as int + value) as char
    } else {
        ('a' as int + value - 10) as char
    }
}

/// The four hexadecimal digits of a 16-bit number, leading zeros
/// included.
pub open spec fn hex4(value: u16) -> Seq<char> {
    seq![
        hex_digit(value as int / 0x1000),
        hex_digit(value as int / 0x100 % 0x10),
        hex_digit(value as int / 0x10 % 0x10),
        hex_digit(value as int % 0x10),
    ]
}

/// The key under which a version resource holds a string field in one
/// of its translations.
pub open spec fn string_key_of(language: u16, code_page: u16, field: FileInfoField) -> Seq<char> {
    "\\StringFileInfo\\"@ + hex4(language) + hex4(code_page) + "\\"@ + field.name_of()
}

/// The code units of a string value that the operating system found:
/// what the bytes hold before the first zero.
pub open spec fn value_units_of(order: ByteOrder, bytes: Seq<u8>) -> Seq<u16> {
    until_nul(units_of_bytes(order, bytes))
}

/// The error of a lookup in a translation that the table lacks.
pub open spec fn missing_translation() -> Error {
    Error::Windows(OsError { code: hresult_of_win32(ERROR_RESOURCE_LANG_NOT_FOUND) })
}

/// How the lookup of a string field begins: with the key to ask for
/// where the table lists the translation, with an error where it does
/// not.
pub open spec fn string_query_of(
    infos: Seq<FileInfoView>,
    language: u16,
    code_page: u16,
    field: FileInfoField,
) -> Result<Seq<char>, Error> {
    if has_translation(infos, language, code_page) {
        Ok(string_key_of(language, code_page, field))
    } else {
        Err(missing_translation())
    }
}

/// How the lookup of a string field ends, given what was found under
/// its key: without a value where nothing was found, with the text that
/// the found bytes spell, or with an error where they spell none.
pub open spec fn string_value_of(order: ByteOrder, found: Option<Seq<u8>>) -> Result<
    Option<Seq<char>>,
    Error,
> {
    match found {
        None => Ok(None),
        Some(bytes) => if is_utf16(value_units_of(order, bytes)) {
            Ok(Some(utf16_decoding(value_units_of(order, bytes))))
        } else {
            Err(Error::InvalidString)
        },
    }
}

/// How the whole lookup of a string field ends, in the translation of
/// the given language and code page and given what was found under the
/// field's key: with an error where the table lacks the translation,
/// and as `string_value_of` says where it lists it.
pub open spec fn get_string_of(
    order: ByteOrder,
    infos: Seq<FileInfoView>,
    language: u16,
    code_page: u16,
    found: Option<Seq<u8>>,
) -> Result<Option<Seq<char>>, Error> {
    if has_translation(infos, language, code_page) {
        string_value_of(order, found)
    } else {
        Err(missing_translation())
    }
}

/// The characters of a key, or the error in its place.
pub open spec fn key_text(key: Result<String, Error>) -> Result<Seq<char>, Error> {
    match key {
        Ok(text) => Ok(text@),
        Err(error) => Err(error),
    }
}

/// The characters of a value, or what stands in its place.
pub open spec fn value_text(value: Result<Option<String>, Error>) -> Result<
    Option<Seq<char>>,
    Error,
> {
    match value {
        Ok(Some(text)) => Ok(Some(text@)),
        Ok(None) => Ok(None),
        Err(error) => Err(error),
    }
}

/// The bytes that were found, if any.
pub open spec fn found_bytes(found: Option<&[u8]>) -> Option<Seq<u8>> {
    match found {
        Some(bytes) => Some(bytes@),
        None => None,
    }
}

impl FileInfo {
    /// The description of one translation of a version resource.
    pub fn new(data: Arc<Vec<u8>>, language: u16, code_page: u16) -> (info: FileInfo)
        ensures
            info@ == (FileInfoView { data: data@, language, code_page }),
    {
        FileInfo { data, language, code_page }
    }

    /// The language of the translation.
    pub fn language(&self) -> (language: u16)
        ensures
            language == self@.language,
    {
        self.language
    }

    /// The code page of the translation.
    pub fn code_page(&self) -> (code_page: u16)
        ensures
            code_page == self@.code_page,
    {
        self.code_page
    }

    /// The bytes of the version resource.
    pub fn data(&self) -> (data: &Arc<Vec<u8>>)
        ensures
            data@ == self@.data,
    {
        &self.data
    }

    /// The key under which the resource holds a field in this
    /// translation.
    pub fn string_key(&self, field: FileInfoField) -> (key: String)
        ensures
            key@ == string_key_of(self@.language, self@.code_page, field),
    {
        string_key(self.language, self.code_page, field)
    }

    /// The value of a string field in this translation, read from what
    /// the operating system found under the key of `string_key`.  A
    /// field that the translation lacks has the value `None`.
    pub fn get_string(&self, order: ByteOrder, found: Option<&[u8]>) -> (value: Result<
        Option<String>,
        Error,
    >)
        ensures
            value_text(value) == string_value_of(order, found_bytes(found)),
    {
        string_value(order, found)
    }
}

/// The one-digit string of a number below sixteen.
fn hex_digit_str(value: u16) -> (digit: &'static str)
    requires
        value < 16,
    ensures
        digit@ == seq![hex_digit(value as int)],
{
    proof {
        reveal_strlit("0");
        reveal_strlit("1");
        reveal_strlit("2");
        reveal_strlit("3");
        reveal_strlit("4");
        reveal_strlit("5");
        reveal_strlit("6");
        reveal_strlit("7");
        reveal_strlit("8");
        reveal_strlit("9");
        reveal_strlit("a");
        reveal_strlit("b");
        reveal_strlit("c");
        reveal_strlit("d");
        reveal_strlit("e");
        reveal_strlit("f");
    }
    let digit = match value {
        0 => "0",
        1 => "1",
        2 => "2",
        3 => "3",
        4 => "4",
        5 => "5",
        6 => "6",
        7 => "7",
        8 => "8",
        9 => "9",
        10 => "a",
        11 => "b",
        12 => "c",
        13 => "d",
        14 => "e",
        _ => "f",
    };
    assert(digit@ =~= seq![hex_digit(value as int)]);
    digit
}

/// Appends the four hexadecimal digits of a number to a string.
fn push_hex4(text: &mut String, value: u16)
    ensures
        final(text)@ == old(text)@ + hex4(value),
{
    text.append(hex_digit_str(value / 0x1000));
    text.append(hex_digit_str(value / 0x100 % 0x10));
    text.append(hex_digit_str(value / 0x10 % 0x10));
    text.append(hex_digit_str(value % 0x10));
    assert(text@ =~= old(text)@ + hex4(value));
}

/// Builds the key under which a version resource holds a string field
/// in the translation of the given language and code page.
pub fn string_key(language: u16, code_page: u16, field: FileInfoField) -> (key: String)
    ensures
        key@ == string_key_of(language, code_page, field),
{
    let mut key = String::from_str("\\StringFileInfo\\");
    push_hex4(&mut key, language);
    push_hex4(&mut key, code_page);
    key.append("\\");
    key.append(field.field_name());
    key
}

/// Judges the size that the operating system reports for the version
/// resource of a file.  A status left by the query is its error.  A size
/// of zero without a status means that the file has no version resource,
/// which is reported as the error of a resource type that is not found.
pub fn version_info_size(size: u32, last_error: u32) -> (outcome: Result<u32, Error>)
    ensures
        last_error != 0 ==> outcome == Err::<u32, Error>(
            Error::Windows(OsError { code: hresult_of_win32(last_error) }),
        ),
        last_error == 0 && size == 0 ==> outcome == Err::<u32, Error>(
            Error::Windows(OsError { code: hresult_of_win32(ERROR_RESOURCE_TYPE_NOT_FOUND) }),
        ),
        last_error == 0 && size != 0 ==> outcome == Ok::<u32, Error>(size),
{
    if last_error != 0 {
        Err(Error::Windows(OsError::from_win32(last_error)))
    } else if size == 0 {
        Err(Error::Windows(OsError::from_win32(ERROR_RESOURCE_TYPE_NOT_FOUND)))
    } else {
        Ok(size)
    }
}

/// Describes a version resource: one description for each record of its
/// translation table, in the table's order, all sharing the resource's
/// bytes.  `table` is what the operating system found under
/// `translation_key`; a resource without a table has no descriptions.
pub fn file_descriptions(order: ByteOrder, data: Arc<Vec<u8>>, table: Option<&[u8]>) -> (infos:
    Vec<FileInfo>)
    requires
        table matches Some(bytes) ==> bytes@.len() % 4 == 0,
    ensures
        views_of(infos@) == descriptions_of(order, data@, found_bytes(table)),
{
    let mut infos: Vec<FileInfo> = Vec::new();
    match table {
        None => {
            assert(views_of(infos@) =~= descriptions_of(order, data@, None));
        },
        Some(bytes) => {
            let entries = parse_translations(order, bytes);
            let mut i: usize = 0;
            while i < entries.len()
                invariant
                    entries@ == translations_of(order, bytes@),
                    0 <= i <= entries.len(),
                    infos@.len() == i,
                    forall|j: int|
                        0 <= j < i ==> (#[trigger] infos@[j])@ == (FileInfoView {
                            data: data@,
                            language: entries@[j].language,
                            code_page: entries@[j].code_page,
                        }),
                decreases entries.len() - i,
            {
                let entry = entries[i];
                infos.push(FileInfo::new(Arc::clone(&data), entry.language, entry.code_page));
                i += 1;
            }
            assert(views_of(infos@) =~= descriptions_of(order, data@, Some(bytes@)));
        },
    }
    infos
}

/// Tells whether some of the descriptions is of the given language and
/// code page.
pub fn find_translation(infos: &[FileInfo], language: u16, code_page: u16) -> (found: Option<
    usize,
>)
    ensures
        found is Some <==> has_translation(views_of(infos@), language, code_page),
        found matches Some(index) ==> {
            &&& index < infos@.len()
            &&& infos@[index as int]@.language == language
            &&& infos@[index as int]@.code_page == code_page
            &&& forall|j: int|
                0 <= j < index ==> !((#[trigger] infos@[j])@.language == language
                    && infos@[j]@.code_page == code_page)
        },
{
    let mut i: usize = 0;
    while i < infos.len()
        invariant
            0 <= i <= infos@.len(),
            forall|j: int|
                0 <= j < i ==> !((#[trigger] infos@[j])@.language == language
                    && infos@[j]@.code_page == code_page),
        decreases infos@.len() - i,
    {
        if infos[i].language() == language && infos[i].code_page() == code_page {
            assert(views_of(infos@)[i as int] == infos@[i as int]@);
            return Some(i);
        }
        i += 1;
    }
    assert forall|j: int| 0 <= j < views_of(infos@).len() implies !((#[trigger] views_of(
        infos@,
    )[j]).language == language && views_of(infos@)[j].code_page == code_page) by {
        assert(views_of(infos@)[j] == infos@[j]@);
    }
    None
}

/// Begins the lookup of a string field in one translation of a version
/// resource: gives the key to ask the operating system for.  A language
/// and code page that the translation table lacks is an error of its
/// own, that of a resource language which is not found, and nothing is
/// to be asked.
pub fn string_query(infos: &[FileInfo], language: u16, code_page: u16, field: FileInfoField) -> (key:
    Result<String, Error>)
    ensures
        key_text(key) == string_query_of(views_of(infos@), language, code_page, field),
{
    match find_translation(infos, language, code_page) {
        Some(_) => Ok(string_key(language, code_page, field)),
        None => Err(Error::Windows(OsError::from_win32(ERROR_RESOURCE_LANG_NOT_FOUND))),
    }
}

/// Ends the lookup of a string field: reads what the operating system
/// found under the field's key.  A field that the translation lacks is
/// no error: its value is `None`.  The bytes of a field that was found
/// are read as UTF-16 code units in the given byte order, up to the
/// first zero; code units that are not well-formed give
/// `Error::InvalidString`.
pub fn string_value(order: ByteOrder, found: Option<&[u8]>) -> (value: Result<
    Option<String>,
    Error,
>)
    ensures
        value_text(value) == string_value_of(order, found_bytes(found)),
{
    match found {
        None => Ok(None),
        Some(bytes) => {
            let units = wide_from_bytes(order, bytes);
            match decode_nul_terminated(units.as_slice()) {
                Ok(text) => Ok(Some(text)),
                Err(error) => Err(error),
            }
        },
    }
}

/// Looks a string field up in the translation of the given language and
/// code page, from what the operating system found under the key of
/// `string_query`.  A translation that the table lacks is an error,
/// whatever was found; a field that a listed translation lacks has the
/// value `None`.
pub fn get_string(
    order: ByteOrder,
    infos: &[FileInfo],
    language: u16,
    code_page: u16,
    found: Option<&[u8]>,
) -> (value: Result<Option<String>, Error>)
    ensures
        value_text(value) == get_string_of(
            order,
            views_of(infos@),
            language,
            code_page,
            found_bytes(found),
        ),
{
    match find_translation(infos, language, code_page) {
        Some(_) => string_value(order, found),
        None => Err(Error::Windows(OsError::from_win32(ERROR_RESOURCE_LANG_NOT_FOUND))),
    }
}

/// A number below sixteen is told by its digit.
pub proof fn lemma_hex_digit_injective(x: int, y: int)
    requires
        0 <= x < 16,
        0 <= y < 16,
        hex_digit(x) == hex_digit(y),
    ensures
        x == y,
{
    assert(hex_digit(x) as int == hex_digit(y) as int);
}

/// A 16-bit number is made up of its four hexadecimal digits.
proof fn lemma_hex4_digits(value: u16)
    ensures
        value == (value / 0x1000) * 0x1000 + (value / 0x100 % 0x10) * 0x100 + (value / 0x10
            % 0x10) * 0x10 + value % 0x10,
        value / 0x1000 < 16,
{
    assert(value == (value / 0x1000) * 0x1000 + (value / 0x100 % 0x10) * 0x100 + (value / 0x10
        % 0x10) * 0x10 + value % 0x10) by (bit_vector);
    assert(value / 0x1000 < 16) by (bit_vector);
}

/// A number is told by its four hexadecimal digits.
pub proof fn lemma_hex4_injective(a: u16, b: u16)
    requires
        hex4(a) == hex4(b),
    ensures
        a == b,
{
    lemma_hex4_digits(a);
    lemma_hex4_digits(b);
    assert(hex4(a)[0] == hex4(b)[0]);
    assert(hex4(a)[1] == hex4(b)[1]);
    assert(hex4(a)[2] == hex4(b)[2]);
    assert(hex4(a)[3] == hex4(b)[3]);
    lemma_hex_digit_injective(a as int / 0x1000, b as int / 0x1000);
    lemma_hex_digit_injective(a as int / 0x100 % 0x10, b as int / 0x100 % 0x10);
    lemma_hex_digit_injective(a as int / 0x10 % 0x10, b as int / 0x10 % 0x10);
    lemma_hex_digit_injective(a as int % 0x10, b as int % 0x10);
}

/// No two fields have the same name.
pub proof fn lemma_field_names_differ(a: FileInfoField, b: FileInfoField)
    requires
        a.name_of() == b.name_of(),
    ensures
        a == b,
{
    reveal_strlit("Comments");
    reveal_strlit("InternalName");
    reveal_strlit("ProductName");
    reveal_strlit("CompanyName");
    reveal_strlit("LegalCopyright");
    reveal_strlit("ProductVersion");
    reveal_strlit("FileDescription");
    reveal_strlit("LegalTrademarks");
    reveal_strlit("PrivateBuild");
    reveal_strlit("FileVersion");
    reveal_strlit("OriginalFilename");
    reveal_strlit("SpecialBuild");
    assert("Comments"@.len() == 8);
    assert("InternalName"@.len() == 12 && "InternalName"@[0] == 'I');
    assert("ProductName"@.len() == 11 && "ProductName"@[0] == 'P');
    assert("CompanyName"@.len() == 11 && "CompanyName"@[0] == 'C');
    assert("LegalCopyright"@.len() == 14 && "LegalCopyright"@[0] == 'L');
    assert("ProductVersion"@.len() == 14 && "ProductVersion"@[0] == 'P');
    assert("FileDescription"@.len() == 15 && "FileDescription"@[0] == 'F');
    assert("LegalTrademarks"@.len() == 15 && "LegalTrademarks"@[0] == 'L');
    assert("PrivateBuild"@.len() == 12 && "PrivateBuild"@[0] == 'P');
    assert("FileVersion"@.len() == 11 && "FileVersion"@[0] == 'F');
    assert("OriginalFilename"@.len() == 16);
    assert("SpecialBuild"@.len() == 12 && "SpecialBuild"@[0] == 'S');
}

/// Lookups that differ in the language, the code page or the field ask
/// for different keys.
pub proof fn lemma_string_key_injective(
    language: u16,
    code_page: u16,
    field: FileInfoField,
    other_language: u16,
    other_code_page: u16,
    other_field: FileInfoField,
)
    requires
        string_key_of(language, code_page, field) == string_key_of(
            other_language,
            other_code_page,
            other_field,
        ),
    ensures
        language == other_language,
        code_page == other_code_page,
        field == other_field,
{
    reveal_strlit("\\StringFileInfo\\");
    reveal_strlit("\\");
    let key = string_key_of(language, code_page, field);
    let other = string_key_of(other_language, other_code_page, other_field);
    assert(key.subrange(16, 20) =~= hex4(language));
    assert(other.subrange(16, 20) =~= hex4(other_language));
    assert(key.subrange(20, 24) =~= hex4(code_page));
    assert(other.subrange(20, 24) =~= hex4(other_code_page));
    assert(key.skip(25) =~= field.name_of());
    assert(other.skip(25) =~= other_field.name_of());
    lemma_hex4_injective(language, other_language);
    lemma_hex4_injective(code_page, other_code_page);
    lemma_field_names_differ(field, other_field);
}

/// A translation table without a whole record gives no descriptions,
/// and so does a resource without a table.
pub proof fn lemma_no_translations_no_descriptions(
    order: ByteOrder,
    data: Seq<u8>,
    table: Option<Seq<u8>>,
)
    requires
        table matches Some(bytes) ==> bytes.len() < 4,
    ensures
        descriptions_of(order, data, table) == Seq::<FileInfoView>::empty(),
{
    assert(descriptions_of(order, data, table) =~= Seq::<FileInfoView>::empty());
}

/// A lookup in a translation that the table lacks and the lookup of a
/// field that a listed translation lacks end differently: the first is
/// an error, whatever is found, and the second is the value `None` and
/// no error.  No lookup in a listed translation ends with the error of
/// a missing translation.
pub proof fn lemma_missing_translation_is_no_missing_field(
    order: ByteOrder,
    infos: Seq<FileInfoView>,
    language: u16,
    code_page: u16,
    field: FileInfoField,
    found: Option<Seq<u8>>,
)
    ensures
        !has_translation(infos, language, code_page) ==> {
            &&& string_query_of(infos, language, code_page, field) == Err::<Seq<char>, Error>(
                missing_translation(),
            )
            &&& get_string_of(order, infos, language, code_page, found) == Err::<
                Option<Seq<char>>,
                Error,
            >(missing_translation())
        },
        has_translation(infos, language, code_page) ==> {
            &&& string_query_of(infos, language, code_page, field) is Ok
            &&& get_string_of(order, infos, language, code_page, None) == Ok::<
                Option<Seq<char>>,
                Error,
            >(None)
            &&& get_string_of(order, infos, language, code_page, found) != Err::<
                Option<Seq<char>>,
                Error,
            >(missing_translation())
        },
{
}

/// The descriptions of a resource list the translations of its table:
/// a lookup in each of them begins with a key.
pub proof fn lemma_listed_translations_are_found(
    order: ByteOrder,
    data: Seq<u8>,
    table: Seq<u8>,
    index: int,
)
    requires
        0 <= index < table.len() / 4,
    ensures
        has_translation(
            descriptions_of(order, data, Some(table)),
            translation_at(order, table, index).language,
            translation_at(order, table, index).code_page,
        ),
{
    let infos = descriptions_of(order, data, Some(table));
    assert(infos[index].language == translation_at(order, table, index).language);
}

} // verus!
