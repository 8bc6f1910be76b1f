use std::sync::Arc;
use textreactor::byte_order::ByteOrder;
use textreactor::error::{Error, OsError};
use textreactor::version::{
    file_descriptions, find_translation, get_string, parse_translations, string_key,
    string_query, string_value, translation_key, version_info_size, FileInfo, FileInfoField,
    TranslationEntry,
};

const LITTLE: ByteOrder = ByteOrder::Little;

fn record(language: u16, code_page: u16) -> Vec<u8> {
    let mut bytes = language.to_le_bytes().to_vec();
    bytes.extend_from_slice(&code_page.to_le_bytes());
    bytes
}

fn value_bytes(text: &str) -> Vec<u8> {
    let mut bytes = Vec::new();
    for unit in text.encode_utf16() {
        bytes.extend_from_slice(&unit.to_le_bytes());
    }
    bytes
}

#[test]
fn field_names() {
    assert_eq!(FileInfoField::Comments.field_name(), "Comments");
    assert_eq!(FileInfoField::InternalName.field_name(), "InternalName");
    assert_eq!(FileInfoField::ProductName.field_name(), "ProductName");
    assert_eq!(FileInfoField::CompanyName.field_name(), "CompanyName");
    assert_eq!(FileInfoField::LegalCopyright.field_name(), "LegalCopyright");
    assert_eq!(FileInfoField::ProductVersion.field_name(), "ProductVersion");
    assert_eq!(FileInfoField::FileDescription.field_name(), "FileDescription");
    assert_eq!(FileInfoField::LegalTrademarks.field_name(), "LegalTrademarks");
    assert_eq!(FileInfoField::PrivateBuild.field_name(), "PrivateBuild");
    assert_eq!(FileInfoField::FileVersion.field_name(), "FileVersion");
    assert_eq!(FileInfoField::OriginalFilename.field_name(), "OriginalFilename");
    assert_eq!(FileInfoField::SpecialBuild.field_name(), "SpecialBuild");
}

#[test]
fn key_of_the_translation_table() {
    assert_eq!(translation_key(), "\\VarFileInfo\\Translation");
}

#[test]
fn translation_records_are_read_in_order() {
    let mut table = record(0x0409, 0x04B0);
    table.extend(record(0x041D, 0x04E4));
    assert_eq!(
        parse_translations(LITTLE, &table),
        vec![
            TranslationEntry { language: 0x0409, code_page: 0x04B0 },
            TranslationEntry { language: 0x041D, code_page: 0x04E4 },
        ]
    );
}

#[test]
fn translation_records_need_no_alignment() {
    let mut bytes = vec![0xAAu8];
    bytes.extend(record(0x0409, 0x04B0));
    bytes.extend(record(0x0000, 0xFFFF));
    assert_eq!(
        parse_translations(LITTLE, &bytes[1..]),
        vec![
            TranslationEntry { language: 0x0409, code_page: 0x04B0 },
            TranslationEntry { language: 0x0000, code_page: 0xFFFF },
        ]
    );
}

#[test]
fn an_empty_table_has_no_records() {
    assert_eq!(parse_translations(LITTLE, &[]), Vec::<TranslationEntry>::new());
}

#[test]
fn file_info_keeps_its_translation() {
    let data = Arc::new(vec![1u8, 2, 3]);
    let info = FileInfo::new(Arc::clone(&data), 0x0409, 0x04B0);
    assert_eq!(info.language(), 0x0409);
    assert_eq!(info.code_page(), 0x04B0);
    assert!(Arc::ptr_eq(info.data(), &data));
}

#[test]
fn a_table_without_entries_gives_no_descriptions() {
    let data = Arc::new(vec![0u8; 64]);
    assert!(file_descriptions(LITTLE, Arc::clone(&data), Some(&[])).is_empty());
}

#[test]
fn a_resource_without_a_table_gives_no_descriptions() {
    let data = Arc::new(vec![0u8; 64]);
    assert!(file_descriptions(LITTLE, data, None).is_empty());
}

#[test]
fn one_description_for_each_translation() {
    let data = Arc::new(vec![9u8; 32]);
    let mut table = record(0x0409, 0x04B0);
    table.extend(record(0x0407, 0x04E4));
    table.extend(record(0x0409, 0x04E4));
    let infos = file_descriptions(LITTLE, Arc::clone(&data), Some(&table));
    assert_eq!(infos.len(), 3);
    assert_eq!((infos[0].language(), infos[0].code_page()), (0x0409, 0x04B0));
    assert_eq!((infos[1].language(), infos[1].code_page()), (0x0407, 0x04E4));
    assert_eq!((infos[2].language(), infos[2].code_page()), (0x0409, 0x04E4));
    for info in &infos {
        assert!(Arc::ptr_eq(info.data(), &data));
    }
    assert_eq!(Arc::strong_count(&data), 4);
}

#[test]
fn the_resource_lives_as_long_as_a_description() {
    let data = Arc::new(vec![9u8; 32]);
    let weak = Arc::downgrade(&data);
    let mut infos = file_descriptions(LITTLE, data, Some(&record(0x0409, 0x04B0)));
    assert!(weak.upgrade().is_some());
    let last = infos.pop().unwrap();
    drop(infos);
    assert_eq!(**last.data(), vec![9u8; 32]);
    drop(last);
    assert!(weak.upgrade().is_none());
}

#[test]
fn string_key_of_a_field() {
    assert_eq!(
        string_key(0x0409, 0x04B0, FileInfoField::ProductName),
        "\\StringFileInfo\\040904b0\\ProductName"
    );
    assert_eq!(
        string_key(0x0000, 0xFFFF, FileInfoField::SpecialBuild),
        "\\StringFileInfo\\0000ffff\\SpecialBuild"
    );
    assert_eq!(
        string_key(0xABCD, 0x0012, FileInfoField::FileDescription),
        "\\StringFileInfo\\abcd0012\\FileDescription"
    );
}

#[test]
fn string_key_is_that_of_the_format() {
    for (language, code_page) in [(0u16, 0u16), (0x0409, 0x04B0), (0xFFFF, 0xFFFF), (0x1A2B, 0x9C0D)] {
        assert_eq!(
            string_key(language, code_page, FileInfoField::Comments),
            format!("\\StringFileInfo\\{language:04x}{code_page:04x}\\Comments")
        );
    }
}

#[test]
fn file_info_builds_the_key_of_its_translation() {
    let info = FileInfo::new(Arc::new(Vec::new()), 0x0409, 0x04B0);
    assert_eq!(
        info.string_key(FileInfoField::FileVersion),
        "\\StringFileInfo\\040904b0\\FileVersion"
    );
}

#[test]
fn product_name_of_a_known_resource() {
    let data = Arc::new(vec![0u8; 16]);
    let infos = file_descriptions(LITTLE, data, Some(&record(0x0409, 0x04B0)));
    let key = string_query(&infos, 0x0409, 0x04B0, FileInfoField::ProductName);
    assert_eq!(key, Ok(String::from("\\StringFileInfo\\040904b0\\ProductName")));
    let found = value_bytes("Example App\0");
    assert_eq!(string_value(LITTLE, Some(&found)), Ok(Some(String::from("Example App"))));
}

#[test]
fn a_field_that_is_absent_has_no_value() {
    let data = Arc::new(vec![0u8; 16]);
    let infos = file_descriptions(LITTLE, data, Some(&record(0x0409, 0x04B0)));
    assert!(string_query(&infos, 0x0409, 0x04B0, FileInfoField::SpecialBuild).is_ok());
    assert_eq!(string_value(LITTLE, None), Ok(None));
}

#[test]
fn a_translation_that_is_absent_is_an_error() {
    let data = Arc::new(vec![0u8; 16]);
    let infos = file_descriptions(LITTLE, data, Some(&record(0x0409, 0x04B0)));
    let missing = Err(Error::Windows(OsError { code: 0x8007_0717u32 as i32 }));
    assert_eq!(string_query(&infos, 0x0407, 0x04B0, FileInfoField::ProductName), missing);
    assert_eq!(string_query(&infos, 0x0409, 0x04E4, FileInfoField::ProductName), missing);
    assert_eq!(string_query(&[], 0x0409, 0x04B0, FileInfoField::ProductName), missing);
}

#[test]
fn absent_translation_and_absent_field_differ() {
    let data = Arc::new(vec![0u8; 16]);
    let infos = file_descriptions(LITTLE, data, Some(&record(0x0409, 0x04B0)));
    let absent_translation: Result<Option<String>, Error> =
        string_query(&infos, 0x0407, 0x04B0, FileInfoField::SpecialBuild).map(|_| None);
    let absent_field = string_query(&infos, 0x0409, 0x04B0, FileInfoField::SpecialBuild)
        .and_then(|_| string_value(LITTLE, None));
    assert!(absent_translation.is_err());
    assert_eq!(absent_field, Ok(None));
    assert_ne!(absent_translation, absent_field);
}

#[test]
fn the_first_matching_translation_is_found() {
    let data = Arc::new(Vec::new());
    let mut table = record(0x0407, 0x04E4);
    table.extend(record(0x0409, 0x04B0));
    table.extend(record(0x0409, 0x04B0));
    let infos = file_descriptions(LITTLE, data, Some(&table));
    assert_eq!(find_translation(&infos, 0x0409, 0x04B0), Some(1));
    assert_eq!(find_translation(&infos, 0x0407, 0x04E4), Some(0));
    assert_eq!(find_translation(&infos, 0x0407, 0x04B0), None);
}

#[test]
fn a_value_ends_at_its_terminator() {
    assert_eq!(string_value(LITTLE, Some(&value_bytes("1.0\0junk"))), Ok(Some(String::from("1.0"))));
    assert_eq!(string_value(LITTLE, Some(&value_bytes("1.0"))), Ok(Some(String::from("1.0"))));
    assert_eq!(string_value(LITTLE, Some(&[])), Ok(Some(String::new())));
}

#[test]
fn a_value_that_is_no_utf16_is_rejected() {
    let mut bytes = 0xD800u16.to_le_bytes().to_vec();
    bytes.extend_from_slice(&0x0041u16.to_le_bytes());
    assert_eq!(string_value(LITTLE, Some(&bytes)), Err(Error::InvalidString));
}

#[test]
fn a_value_may_hold_any_character() {
    assert_eq!(
        string_value(LITTLE, Some(&value_bytes("Bj\u{f6}rk \u{1F600}\0"))),
        Ok(Some(String::from("Bj\u{f6}rk \u{1F600}")))
    );
}

#[test]
fn version_info_size_is_handed_on() {
    assert_eq!(version_info_size(1832, 0), Ok(1832));
}

#[test]
fn version_info_size_with_a_status_is_an_error() {
    let error = Err(Error::Windows(OsError { code: 0x8007_0714u32 as i32 }));
    assert_eq!(version_info_size(0, 1812), error);
    assert_eq!(version_info_size(100, 1812), error);
}

#[test]
fn a_file_without_version_resource_is_an_error() {
    assert_eq!(
        version_info_size(0, 0),
        Err(Error::Windows(OsError { code: 0x8007_0715u32 as i32 }))
    );
}

#[test]
fn records_in_the_order_of_the_machine() {
    let mut table = 0x0409u16.to_ne_bytes().to_vec();
    table.extend_from_slice(&0x04B0u16.to_ne_bytes());
    assert_eq!(
        parse_translations(ByteOrder::native(), &table),
        vec![TranslationEntry { language: 0x0409, code_page: 0x04B0 }]
    );
}

#[test]
fn records_in_big_endian() {
    assert_eq!(
        parse_translations(ByteOrder::Big, &[0x04, 0x09, 0x04, 0xB0]),
        vec![TranslationEntry { language: 0x0409, code_page: 0x04B0 }]
    );
    assert_eq!(
        parse_translations(ByteOrder::Little, &[0x04, 0x09, 0x04, 0xB0]),
        vec![TranslationEntry { language: 0x0904, code_page: 0xB004 }]
    );
}

#[test]
fn values_in_the_order_of_the_machine() {
    let mut bytes = Vec::new();
    for unit in "Example App\0".encode_utf16() {
        bytes.extend_from_slice(&unit.to_ne_bytes());
    }
    assert_eq!(
        string_value(ByteOrder::native(), Some(&bytes)),
        Ok(Some(String::from("Example App")))
    );
}

#[test]
fn values_in_big_endian() {
    assert_eq!(
        string_value(ByteOrder::Big, Some(&[0x00, 0x4F, 0x00, 0x6B, 0x00, 0x00])),
        Ok(Some(String::from("Ok")))
    );
}

#[test]
fn file_info_reads_the_value_of_its_field() {
    let info = FileInfo::new(Arc::new(Vec::new()), 0x0409, 0x04B0);
    assert_eq!(
        info.get_string(LITTLE, Some(&value_bytes("Example App\0"))),
        Ok(Some(String::from("Example App")))
    );
    assert_eq!(info.get_string(LITTLE, None), Ok(None));
    assert_eq!(info.get_string(LITTLE, Some(&[0x00, 0xD8])), Err(Error::InvalidString));
}

#[test]
fn get_string_of_a_known_resource() {
    let infos = file_descriptions(LITTLE, Arc::new(vec![0u8; 16]), Some(&record(0x0409, 0x04B0)));
    let found = value_bytes("Example App\0");
    assert_eq!(
        get_string(LITTLE, &infos, 0x0409, 0x04B0, Some(&found)),
        Ok(Some(String::from("Example App")))
    );
    assert_eq!(get_string(LITTLE, &infos, 0x0409, 0x04B0, None), Ok(None));
}

#[test]
fn get_string_tells_a_missing_translation_from_a_missing_field() {
    let infos = file_descriptions(LITTLE, Arc::new(vec![0u8; 16]), Some(&record(0x0409, 0x04B0)));
    let missing = Err(Error::Windows(OsError { code: 0x8007_0717u32 as i32 }));
    let found = value_bytes("Example App\0");
    assert_eq!(get_string(LITTLE, &infos, 0x0407, 0x04B0, None), missing);
    assert_eq!(get_string(LITTLE, &infos, 0x0407, 0x04B0, Some(&found)), missing);
    assert_eq!(get_string(LITTLE, &[], 0x0409, 0x04B0, Some(&found)), missing);
    assert_ne!(
        get_string(LITTLE, &infos, 0x0407, 0x04B0, None),
        get_string(LITTLE, &infos, 0x0409, 0x04B0, None)
    );
}

#[test]
fn get_string_rejects_a_value_that_is_no_utf16() {
    let infos = file_descriptions(LITTLE, Arc::new(vec![0u8; 16]), Some(&record(0x0409, 0x04B0)));
    assert_eq!(
        get_string(LITTLE, &infos, 0x0409, 0x04B0, Some(&[0x00, 0xDC])),
        Err(Error::InvalidString)
    );
}

#[test]
fn different_lookups_have_different_keys() {
    let fields = [
        FileInfoField::Comments,
        FileInfoField::InternalName,
        FileInfoField::ProductName,
        FileInfoField::CompanyName,
        FileInfoField::LegalCopyright,
        FileInfoField::ProductVersion,
        FileInfoField::FileDescription,
        FileInfoField::LegalTrademarks,
        FileInfoField::PrivateBuild,
        FileInfoField::FileVersion,
        FileInfoField::OriginalFilename,
        FileInfoField::SpecialBuild,
    ];
    let mut keys = Vec::new();
    for (language, code_page) in [(0x0409u16, 0x04B0u16), (0x04B0, 0x0409), (0x0409, 0x04B1)] {
        for field in fields {
            keys.push(string_key(language, code_page, field));
        }
    }
    for (i, key) in keys.iter().enumerate() {
        for other in &keys[i + 1..] {
            assert_ne!(key, other);
        }
    }
}
