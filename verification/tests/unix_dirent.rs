use jwalk_meta::unix_dirent::{
    collect_dir_entries, mode_from_dtype, native_little_endian, parse_dirents, parse_dirents_in,
    subdir_positions, with_tls_buffer,
    RawDirent,
    DENTS_BUF_SIZE, DIRENT_HEADER_SIZE,
    DIRENT_NAME_OFFSET, DT_BLK, DT_CHR, DT_DIR, DT_FIFO, DT_LNK, DT_REG, DT_SOCK, DT_UNKNOWN,
    D_INO_OFFSET, D_OFF_OFFSET, D_RECLEN_OFFSET, D_TYPE_OFFSET, S_IFDIR, S_IFLNK, S_IFREG,
};

/// One linux_dirent64 record: d_ino(8) | d_off(8) | d_reclen(2) | d_type(1) |
/// d_name (NUL-terminated), padded to 8 bytes.
fn make_dirent_bytes(d_type: u8, name: &str) -> Vec<u8> {
    let name_bytes = name.as_bytes();
    let name_with_nul_len = name_bytes.len() + 1;
    let header_len = 19;
    let total_len = header_len + name_with_nul_len;
    let padded_len = (total_len + 7) & !7;

    let mut buf = vec![0u8; padded_len];
    buf[0..8].copy_from_slice(&1234u64.to_ne_bytes());
    buf[8..16].copy_from_slice(&5678u64.to_ne_bytes());
    buf[16..18].copy_from_slice(&(padded_len as u16).to_ne_bytes());
    buf[18] = d_type;
    buf[19..19 + name_bytes.len()].copy_from_slice(name_bytes);
    buf[19 + name_bytes.len()] = 0;
    buf
}

fn as_pairs(entries: &[RawDirent]) -> Vec<(u8, String)> {
    entries
        .iter()
        .map(|e| (e.d_type, String::from_utf8_lossy(&e.name).into_owned()))
        .collect()
}

#[test]
fn test_parse_dirents_single_regular() {
    let buf = make_dirent_bytes(libc::DT_REG, "hello.txt");
    let found = as_pairs(&parse_dirents(&buf, buf.len()));
    assert_eq!(found.len(), 1);
    assert_eq!(found[0].0, libc::DT_REG);
    assert_eq!(found[0].1, "hello.txt");
}

#[test]
fn test_parse_dirents_multiple_mixed_types() {
    let mut buf = Vec::new();
    buf.extend(make_dirent_bytes(libc::DT_DIR, "subdir"));
    buf.extend(make_dirent_bytes(libc::DT_REG, "file1.txt"));
    buf.extend(make_dirent_bytes(libc::DT_LNK, "link"));

    let found = as_pairs(&parse_dirents(&buf, buf.len()));
    assert_eq!(found.len(), 3);
    assert_eq!(found[0], (libc::DT_DIR, "subdir".to_string()));
    assert_eq!(found[1], (libc::DT_REG, "file1.txt".to_string()));
    assert_eq!(found[2], (libc::DT_LNK, "link".to_string()));
}

#[test]
fn test_parse_dirents_dot_entries_not_filtered() {
    let mut buf = Vec::new();
    buf.extend(make_dirent_bytes(libc::DT_DIR, "."));
    buf.extend(make_dirent_bytes(libc::DT_DIR, ".."));
    buf.extend(make_dirent_bytes(libc::DT_REG, "real.txt"));

    let all = as_pairs(&parse_dirents(&buf, buf.len()));
    assert_eq!(all.len(), 3);

    let filtered: Vec<_> = all.into_iter().filter(|(_, n)| n != "." && n != "..").collect();
    assert_eq!(filtered.len(), 1);
    assert_eq!(filtered[0].1, "real.txt");
}

#[test]
fn test_parse_dirents_truncation_safe() {
    let mut buf = make_dirent_bytes(libc::DT_REG, "truncated.txt");
    let trunc_len = buf.len() - 5;
    buf.truncate(trunc_len);
    let found = parse_dirents(&buf, buf.len());
    assert_eq!(found.len(), 0);
}

#[test]
fn test_dirent_layout_offsets() {
    assert_eq!(D_INO_OFFSET, 0);
    assert_eq!(D_OFF_OFFSET, 8);
    assert_eq!(D_RECLEN_OFFSET, 16);
    assert_eq!(D_TYPE_OFFSET, 18);
    assert_eq!(DIRENT_NAME_OFFSET, 19);
    // The same offsets follow from the fields of libc's `dirent64`, laid out
    // in C order: each field starts where the previous one ends, at an offset
    // aligned for its type, so no padding comes between them.
    let d = libc::dirent64 { d_ino: 0, d_off: 0, d_reclen: 0, d_type: 0, d_name: [0; 256] };
    assert_eq!(D_OFF_OFFSET, D_INO_OFFSET + std::mem::size_of_val(&d.d_ino));
    assert_eq!(D_RECLEN_OFFSET, D_OFF_OFFSET + std::mem::size_of_val(&d.d_off));
    assert_eq!(D_TYPE_OFFSET, D_RECLEN_OFFSET + std::mem::size_of_val(&d.d_reclen));
    assert_eq!(DIRENT_NAME_OFFSET, D_TYPE_OFFSET + std::mem::size_of_val(&d.d_type));
    assert_eq!(D_OFF_OFFSET % std::mem::align_of_val(&d.d_off), 0);
    assert_eq!(D_RECLEN_OFFSET % std::mem::align_of_val(&d.d_reclen), 0);
    assert_eq!(D_TYPE_OFFSET % std::mem::align_of_val(&d.d_type), 0);
    assert_eq!(DIRENT_NAME_OFFSET % std::mem::align_of_val(&d.d_name), 0);
    assert_eq!(std::mem::align_of::<libc::dirent64>(), std::mem::align_of_val(&d.d_ino));
}

#[test]
fn test_streaming_dispatches_only_subdirs() {
    let mut buf = Vec::new();
    buf.extend(make_dirent_bytes(libc::DT_DIR, "d1"));
    buf.extend(make_dirent_bytes(libc::DT_REG, "f1"));
    buf.extend(make_dirent_bytes(libc::DT_DIR, "d2"));
    buf.extend(make_dirent_bytes(libc::DT_REG, "f2"));
    buf.extend(make_dirent_bytes(libc::DT_DIR, "d3"));

    let mut all_entries = Vec::new();
    collect_dir_entries(&buf, buf.len(), native_little_endian(), &mut all_entries);
    let subdir_names: Vec<String> = subdir_positions(&all_entries)
        .into_iter()
        .map(|k| String::from_utf8_lossy(&all_entries[k].name).into_owned())
        .collect();

    assert_eq!(subdir_names, vec!["d1", "d2", "d3"]);
    assert_eq!(all_entries.len(), 5);
}

#[test]
fn constants_match_libc() {
    assert_eq!(DT_UNKNOWN, libc::DT_UNKNOWN);
    assert_eq!(DT_FIFO, libc::DT_FIFO);
    assert_eq!(DT_CHR, libc::DT_CHR);
    assert_eq!(DT_DIR, libc::DT_DIR);
    assert_eq!(DT_BLK, libc::DT_BLK);
    assert_eq!(DT_REG, libc::DT_REG);
    assert_eq!(DT_LNK, libc::DT_LNK);
    assert_eq!(DT_SOCK, libc::DT_SOCK);
    assert_eq!(S_IFDIR, libc::S_IFDIR);
    assert_eq!(S_IFREG, libc::S_IFREG);
    assert_eq!(S_IFLNK, libc::S_IFLNK);
    assert_eq!(DIRENT_HEADER_SIZE, 24);
}

#[test]
fn mode_from_dtype_common_types() {
    assert_eq!(mode_from_dtype(libc::DT_DIR), Some(libc::S_IFDIR));
    assert_eq!(mode_from_dtype(libc::DT_REG), Some(libc::S_IFREG));
    assert_eq!(mode_from_dtype(libc::DT_LNK), Some(libc::S_IFLNK));
    assert_eq!(mode_from_dtype(libc::DT_FIFO), Some(libc::S_IFIFO));
    assert_eq!(mode_from_dtype(libc::DT_SOCK), Some(libc::S_IFSOCK));
    assert_eq!(mode_from_dtype(libc::DT_BLK), Some(libc::S_IFBLK));
    assert_eq!(mode_from_dtype(libc::DT_CHR), Some(libc::S_IFCHR));
    assert_eq!(mode_from_dtype(libc::DT_UNKNOWN), None);
}

#[test]
fn collect_skips_dot_entries_and_appends() {
    let mut buf = Vec::new();
    buf.extend(make_dirent_bytes(libc::DT_DIR, "."));
    buf.extend(make_dirent_bytes(libc::DT_REG, "a"));
    buf.extend(make_dirent_bytes(libc::DT_DIR, ".."));
    buf.extend(make_dirent_bytes(libc::DT_REG, "..."));
    let mut entries = vec![RawDirent { d_type: libc::DT_REG, name: b"before".to_vec() }];
    collect_dir_entries(&buf, buf.len(), native_little_endian(), &mut entries);
    let names = as_pairs(&entries);
    assert_eq!(
        names,
        vec![
            (libc::DT_REG, "before".to_string()),
            (libc::DT_REG, "a".to_string()),
            (libc::DT_REG, "...".to_string())
        ]
    );
}

#[test]
fn parse_stops_at_zero_reclen_and_respects_len() {
    let mut buf = make_dirent_bytes(libc::DT_REG, "one");
    let first_len = buf.len();
    buf.extend(make_dirent_bytes(libc::DT_REG, "two"));
    // Only the first record lies inside len.
    assert_eq!(parse_dirents(&buf, first_len).len(), 1);
    // A zero d_reclen ends parsing.
    let mut zero = make_dirent_bytes(libc::DT_REG, "zero");
    zero[16] = 0;
    zero[17] = 0;
    assert_eq!(parse_dirents(&zero, zero.len()).len(), 0);
}

#[test]
fn parse_name_without_nul_is_cut_at_record_end() {
    let mut buf = make_dirent_bytes(libc::DT_REG, "abc");
    // Fill the name area to the end of the record with non-NUL bytes.
    for b in buf.iter_mut().skip(19) {
        *b = b'x';
    }
    let found = parse_dirents(&buf, buf.len());
    assert_eq!(found.len(), 1);
    assert_eq!(found[0].name.len(), buf.len() - 19);
}

#[test]
fn tls_buffer_is_grown_and_lent_at_full_size() {
    let mut buf = vec![7u8; 3];
    let (len, head) = with_tls_buffer(&mut buf, |b| (b.len(), b[..4].to_vec()));
    assert_eq!(len, DENTS_BUF_SIZE);
    assert_eq!(head, vec![7, 7, 7, 0]);
    assert_eq!(buf.len(), DENTS_BUF_SIZE);
}

#[test]
fn tls_buffer_lends_only_the_first_block_of_a_longer_buffer() {
    let mut buf = vec![1u8; DENTS_BUF_SIZE + 10];
    let len = with_tls_buffer(&mut buf, |b| {
        b[0] = 9;
        b.len()
    });
    assert_eq!(len, DENTS_BUF_SIZE);
    assert_eq!(buf[0], 9);
    assert_eq!(buf.len(), DENTS_BUF_SIZE + 10);
}

#[test]
fn subdir_positions_skip_unknown_types_and_keep_order() {
    let batch = vec![
        RawDirent { d_type: DT_UNKNOWN, name: b"u".to_vec() },
        RawDirent { d_type: DT_DIR, name: b"a".to_vec() },
        RawDirent { d_type: DT_LNK, name: b"l".to_vec() },
        RawDirent { d_type: DT_DIR, name: b"b".to_vec() },
    ];
    assert_eq!(subdir_positions(&batch), vec![1, 3]);
    assert_eq!(subdir_positions(&Vec::new()), Vec::<usize>::new());
}

#[test]
fn native_byte_order_is_the_one_from_ne_bytes_uses() {
    assert_eq!(native_little_endian(), u16::from_ne_bytes([1, 0]) == 1);
}

#[test]
fn record_length_is_read_in_the_given_byte_order() {
    // One 24-byte record named "a"; d_reclen 24 written big-endian.
    let mut buf = vec![0u8; 24];
    buf[16..18].copy_from_slice(&24u16.to_be_bytes());
    buf[18] = DT_REG;
    buf[19] = b'a';
    let big = parse_dirents_in(&buf, buf.len(), false);
    assert_eq!(as_pairs(&big), vec![(DT_REG, "a".to_string())]);
    // Read little-endian the length is 24 * 256, past the buffer: no record.
    assert_eq!(parse_dirents_in(&buf, buf.len(), true).len(), 0);
    buf[16..18].copy_from_slice(&24u16.to_le_bytes());
    assert_eq!(as_pairs(&parse_dirents_in(&buf, buf.len(), true)), vec![(DT_REG, "a".to_string())]);
}
