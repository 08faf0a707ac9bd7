use jwalk_meta::nt_dirent::{
    classify_query, fs_type_from_name, QueryStep, STATUS_NO_MORE_FILES, is_directory, needs_nlink_query, parse_buffer_entries, record_nlink_result,
    path_to_widestring, to_wide_null, DirEntryInfo, FsType, FILE_ATTRIBUTE_DIRECTORY, NT_FILE_NAME_OFFSET,
};

/// One FILE_ID_BOTH_DIR_INFO record (104-byte header + UTF-16 name), padded
/// to 8 bytes; `last` leaves NextEntryOffset at zero.
fn make_record(name: &str, attributes: u32, size: i64, file_id: i64, last: bool) -> Vec<u8> {
    let units: Vec<u16> = name.encode_utf16().collect();
    let total = NT_FILE_NAME_OFFSET + units.len() * 2;
    let padded = (total + 7) & !7;
    let mut buf = vec![0u8; padded];
    if !last {
        buf[0..4].copy_from_slice(&(padded as u32).to_le_bytes());
    }
    buf[8..16].copy_from_slice(&111i64.to_le_bytes());
    buf[16..24].copy_from_slice(&333i64.to_le_bytes());
    buf[24..32].copy_from_slice(&222i64.to_le_bytes());
    buf[40..48].copy_from_slice(&size.to_le_bytes());
    buf[56..60].copy_from_slice(&attributes.to_le_bytes());
    buf[60..64].copy_from_slice(&((units.len() * 2) as u32).to_le_bytes());
    buf[96..104].copy_from_slice(&file_id.to_le_bytes());
    for (k, u) in units.iter().enumerate() {
        buf[104 + 2 * k..106 + 2 * k].copy_from_slice(&u.to_le_bytes());
    }
    buf
}

#[test]
fn parse_follows_chain_and_skips_dots() {
    let mut buf = Vec::new();
    buf.extend(make_record(".", FILE_ATTRIBUTE_DIRECTORY, 0, 1, false));
    buf.extend(make_record("..", FILE_ATTRIBUTE_DIRECTORY, 0, 2, false));
    buf.extend(make_record("dir", FILE_ATTRIBUTE_DIRECTORY, 0, 3, false));
    buf.extend(make_record("файл.txt", 0x20, 42, -1, true));
    buf.extend(make_record("ignored", 0x20, 1, 9, true));
    let entries = parse_buffer_entries(&buf, buf.len());
    assert_eq!(entries.len(), 2);
    assert_eq!(String::from_utf16_lossy(&entries[0].file_name), "dir");
    assert!(is_directory(entries[0].file_attributes));
    assert_eq!(entries[0].file_id, 3);
    assert_eq!(String::from_utf16_lossy(&entries[1].file_name), "файл.txt");
    assert_eq!(entries[1].file_size, 42);
    assert_eq!(entries[1].file_id, u64::MAX);
    assert_eq!(entries[1].creation_time, 111);
    assert_eq!(entries[1].last_write_time, 222);
    assert_eq!(entries[1].last_access_time, 333);
    assert_eq!(entries[1].number_of_links, None);
    assert_eq!(entries[1].volume_serial_number, None);
}

#[test]
fn parse_stops_when_record_does_not_fit() {
    let buf = make_record("long_name.bin", 0, 0, 0, true);
    assert_eq!(parse_buffer_entries(&buf, NT_FILE_NAME_OFFSET + 4).len(), 0);
    assert_eq!(parse_buffer_entries(&buf, 50).len(), 0);
    assert_eq!(parse_buffer_entries(&buf, buf.len()).len(), 1);
}

#[test]
fn fs_type_from_volume_name() {
    let wide = |s: &str| -> Vec<u16> {
        let mut v: Vec<u16> = s.encode_utf16().collect();
        v.resize(16, 0);
        v
    };
    assert_eq!(fs_type_from_name(&wide("NTFS")), FsType::Ntfs);
    assert_eq!(fs_type_from_name(&wide("ReFS")), FsType::Refs);
    assert_eq!(fs_type_from_name(&wide("FAT32")), FsType::Fat32);
    assert_eq!(fs_type_from_name(&wide("exFAT")), FsType::ExFat);
    assert_eq!(fs_type_from_name(&wide("FAT")), FsType::Fat32);
    assert_eq!(fs_type_from_name(&wide("FAT16")), FsType::Fat32);
    assert_eq!(fs_type_from_name(&wide("ntfs")), FsType::Unknown);
    assert_eq!(fs_type_from_name(&wide("")), FsType::Unknown);
    let full: Vec<u16> = "NTFS".encode_utf16().collect();
    assert_eq!(fs_type_from_name(&full), FsType::Ntfs);
}

#[test]
fn fat_family_skips_link_queries() {
    assert!(FsType::Fat32.is_fat_family());
    assert!(FsType::ExFat.is_fat_family());
    assert!(!FsType::Ntfs.is_fat_family());
    assert!(!FsType::Refs.is_fat_family());
    assert!(!FsType::Unknown.is_fat_family());
}

fn info(name: &str, attributes: u32) -> DirEntryInfo {
    DirEntryInfo {
        file_name: name.encode_utf16().collect(),
        file_attributes: attributes,
        file_size: 0,
        creation_time: 0,
        last_write_time: 0,
        last_access_time: 0,
        file_id: 0,
        number_of_links: None,
        volume_serial_number: None,
    }
}

#[test]
fn link_queries_for_directories_or_when_asked() {
    assert!(needs_nlink_query(&info("d", FILE_ATTRIBUTE_DIRECTORY), false));
    assert!(!needs_nlink_query(&info("f", 0x20), false));
    assert!(needs_nlink_query(&info("f", 0x20), true));
    assert!(!needs_nlink_query(&info("", FILE_ATTRIBUTE_DIRECTORY), true));
    let mut e = info("f", 0x20);
    record_nlink_result(&mut e, -1, 5);
    assert_eq!(e.number_of_links, None);
    record_nlink_result(&mut e, 0, 3);
    assert_eq!(e.number_of_links, Some(3));
}

#[test]
fn wide_null_terminated() {
    let expected: Vec<u16> = "ntdll.dll".encode_utf16().chain(std::iter::once(0)).collect();
    assert_eq!(to_wide_null("ntdll.dll"), expected);
    let emoji: Vec<u16> = "a🎉".encode_utf16().chain(std::iter::once(0)).collect();
    assert_eq!(to_wide_null("a🎉"), emoji);
    assert_eq!(to_wide_null(""), vec![0]);
}

#[test]
fn query_outcomes() {
    assert_eq!(classify_query(STATUS_NO_MORE_FILES, 100, 64), QueryStep::Done);
    assert_eq!(classify_query(-5, 100, 64), QueryStep::Failed(-5));
    assert_eq!(classify_query(0, 0, 64), QueryStep::Done);
    assert_eq!(classify_query(0, 40, 64), QueryStep::Parse(40));
    assert_eq!(classify_query(0, 400, 64), QueryStep::Parse(64));
}

#[test]
fn path_units_get_a_terminating_nul() {
    let units: Vec<u16> = "C:\\测试".encode_utf16().collect();
    let mut expected = units.clone();
    expected.push(0);
    assert_eq!(path_to_widestring(units), expected);
    assert_eq!(path_to_widestring(Vec::new()), vec![0]);
}
