//! Windows directory enumeration data: the `FILE_ID_BOTH_DIR_INFO` records
//! that `NtQueryDirectoryFileEx` writes into a buffer, file-system type
//! detection from the volume's file-system name, and wide-string helpers.
//! Multi-byte fields are read little-endian, as on every Windows target.

use vstd::prelude::*;

verus! {

/// Offset of `NextEntryOffset` (u32) in a record.
pub const NT_NEXT_ENTRY_OFFSET: usize = 0;
/// Offset of `CreationTime` (i64) in a record.
pub const NT_CREATION_TIME_OFFSET: usize = 8;
/// Offset of `LastAccessTime` (i64) in a record.
pub const NT_LAST_ACCESS_TIME_OFFSET: usize = 16;
/// Offset of `LastWriteTime` (i64) in a record.
pub const NT_LAST_WRITE_TIME_OFFSET: usize = 24;
/// Offset of `EndOfFile` (i64) in a record.
pub const NT_END_OF_FILE_OFFSET: usize = 40;
/// Offset of `FileAttributes` (u32) in a record.
pub const NT_FILE_ATTRIBUTES_OFFSET: usize = 56;
/// Offset of `FileNameLength` (u32, in bytes) in a record.
pub const NT_FILE_NAME_LENGTH_OFFSET: usize = 60;
/// Offset of `FileId` (i64) in a record.
pub const NT_FILE_ID_OFFSET: usize = 96;
/// Offset of `FileName` (UTF-16 units) in a record.
pub const NT_FILE_NAME_OFFSET: usize = 104;
/// `FILE_ATTRIBUTE_DIRECTORY`.
pub const FILE_ATTRIBUTE_DIRECTORY: u32 = 0x10;
/// Size of the enumeration buffer (64 KiB).
pub const NT_BUFFER_SIZE: usize = 65536;
/// `STATUS_NO_MORE_FILES` (0x80000006): the enumeration is complete.
pub const STATUS_NO_MORE_FILES: i32 = -2147483642;

/// A directory entry as enumerated: name in UTF-16 units, attributes, size,
/// times, file id, and the two fields that later queries fill in.
#[derive(Debug)]
pub struct DirEntryInfo {
    pub file_name: Vec<u16>,
    pub file_attributes: u32,
    pub file_size: u64,
    pub creation_time: i64,
    pub last_write_time: i64,
    pub last_access_time: i64,
    pub file_id: u64,
    pub number_of_links: Option<u32>,
    pub volume_serial_number: Option<u32>,
}

/// What one record of the buffer says about an entry.
pub struct NtRecord {
    pub name: Seq<u16>,
    pub attributes: u32,
    pub size: u64,
    pub creation_time: i64,
    pub last_write_time: i64,
    pub last_access_time: i64,
    pub file_id: u64,
}

/// Little-endian unsigned value of the `n` bytes at `off`.
pub open spec fn le_bytes(buf: Seq<u8>, off: int, n: nat) -> int
    decreases n,
{
    if n == 0 {
        0
    } else {
        buf[off] as int + 256 * le_bytes(buf, off + 1, (n - 1) as nat)
    }
}

/// The UTF-16 units of a name of `chars` units at `off`.
pub open spec fn name_units(buf: Seq<u8>, off: int, chars: nat) -> Seq<u16> {
    Seq::new(chars, |k: int| le_bytes(buf, off + 2 * k, 2) as u16)
}

/// The record at `off`, whose name has `chars` units.
pub open spec fn record_at(buf: Seq<u8>, off: int, chars: nat) -> NtRecord {
    NtRecord {
        name: name_units(buf, off + NT_FILE_NAME_OFFSET, chars),
        attributes: le_bytes(buf, off + NT_FILE_ATTRIBUTES_OFFSET, 4) as u32,
        size: le_bytes(buf, off + NT_END_OF_FILE_OFFSET, 8) as u64,
        creation_time: #[verifier::truncate] (le_bytes(buf, off + NT_CREATION_TIME_OFFSET, 8) as i64),
        last_write_time: le_bytes(buf, off + NT_LAST_WRITE_TIME_OFFSET, 8) as i64,
        last_access_time: le_bytes(buf, off + NT_LAST_ACCESS_TIME_OFFSET, 8) as i64,
        file_id: le_bytes(buf, off + NT_FILE_ID_OFFSET, 8) as u64,
    }
}

/// A record's numeric fields are read at their full width, little-endian:
/// `EndOfFile` (the file size) and `FileId` from all eight bytes at record
/// offsets 40 and 96, `FileAttributes` from the four bytes at offset 56.
pub proof fn lemma_record_fields_full_width(buf: Seq<u8>, off: int, chars: nat)
    ensures
        record_at(buf, off, chars).size as int == buf[off + 40] as int + 0x100 * buf[off + 41] as int
            + 0x10000 * buf[off + 42] as int + 0x1000000 * buf[off + 43] as int + 0x100000000
            * buf[off + 44] as int + 0x10000000000 * buf[off + 45] as int + 0x1000000000000
            * buf[off + 46] as int + 0x100000000000000 * buf[off + 47] as int,
        record_at(buf, off, chars).file_id as int == buf[off + 96] as int + 0x100 * buf[off
            + 97] as int + 0x10000 * buf[off + 98] as int + 0x1000000 * buf[off + 99] as int
            + 0x100000000 * buf[off + 100] as int + 0x10000000000 * buf[off + 101] as int
            + 0x1000000000000 * buf[off + 102] as int + 0x100000000000000 * buf[off + 103] as int,
        record_at(buf, off, chars).attributes as int == buf[off + 56] as int + 0x100 * buf[off
            + 57] as int + 0x10000 * buf[off + 58] as int + 0x1000000 * buf[off + 59] as int,
{
    reveal_with_fuel(le_bytes, 9);
}

/// The name is `.` or `..`.
pub open spec fn is_dot_units(name: Seq<u16>) -> bool {
    name == seq![46u16] || name == seq![46u16, 46u16]
}

/// The records of `buf[..len]` from offset `off` on, following the
/// `NextEntryOffset` chain, without `.` and `..`. The chain ends at a zero
/// `NextEntryOffset`, or at a record whose header and name do not fit in the
/// remaining bytes.
pub open spec fn nt_records_from(buf: Seq<u8>, len: int, off: int) -> Seq<NtRecord>
    decreases len - off,
{
    if off < 0 || off + NT_FILE_NAME_OFFSET > len {
        Seq::empty()
    } else {
        let chars = (le_bytes(buf, off + NT_FILE_NAME_LENGTH_OFFSET, 4) / 2) as nat;
        if off + NT_FILE_NAME_OFFSET + 2 * chars > len {
            Seq::empty()
        } else {
            let rec = record_at(buf, off, chars);
            let head = if is_dot_units(rec.name) {
                Seq::empty()
            } else {
                seq![rec]
            };
            let next = le_bytes(buf, off + NT_NEXT_ENTRY_OFFSET, 4);
            if next <= 0 || off + next > len {
                head
            } else {
                head + nt_records_from(buf, len, off + next)
            }
        }
    }
}

/// The entry holds what the record says, with the link count and volume
/// serial not known yet.
pub open spec fn info_matches(d: DirEntryInfo, r: NtRecord) -> bool {
    &&& d.file_name@ == r.name
    &&& d.file_attributes == r.attributes
    &&& d.file_size == r.size
    &&& d.creation_time == r.creation_time
    &&& d.last_write_time == r.last_write_time
    &&& d.last_access_time == r.last_access_time
    &&& d.file_id == r.file_id
    &&& d.number_of_links.is_none()
    &&& d.volume_serial_number.is_none()
}

fn read_u16(buf: &[u8], off: usize) -> (r: u16)
    requires
        off + 2 <= buf@.len(),
    ensures
        r == le_bytes(buf@, off as int, 2),
{
    proof {
        reveal_with_fuel(le_bytes, 3);
    }
    (buf[off] as u16) + 256 * (buf[off + 1] as u16)
}

fn read_u32(buf: &[u8], off: usize) -> (r: u32)
    requires
        off + 4 <= buf@.len(),
    ensures
        r == le_bytes(buf@, off as int, 4),
{
    proof {
        reveal_with_fuel(le_bytes, 5);
    }
    (buf[off] as u32) + 256 * (buf[off + 1] as u32) + 65536 * (buf[off + 2] as u32) + 16777216 * (
    buf[off + 3] as u32)
}

fn read_u64(buf: &[u8], off: usize) -> (r: u64)
    requires
        off + 8 <= buf@.len(),
    ensures
        r == le_bytes(buf@, off as int, 8),
{
    proof {
        reveal_with_fuel(le_bytes, 9);
    }
    (buf[off] as u64) + 0x100 * (buf[off + 1] as u64) + 0x10000 * (buf[off + 2] as u64)
        + 0x1000000 * (buf[off + 3] as u64) + 0x100000000 * (buf[off + 4] as u64) + 0x10000000000 * (
    buf[off + 5] as u64) + 0x1000000000000 * (buf[off + 6] as u64) + 0x100000000000000 * (
    buf[off + 7] as u64)
}

/// Whether a name of UTF-16 units is `.` or `..`.
pub fn is_dot_or_dotdot_wide(name: &Vec<u16>) -> (r: bool)
    ensures
        r == is_dot_units(name@),
{
    let r = (name.len() == 1 && name[0] == 46) || (name.len() == 2 && name[0] == 46 && name[1]
        == 46);
    proof {
        if name@.len() == 1 && name@[0] == 46 {
            assert(name@ =~= seq![46u16]);
        }
        if name@.len() == 2 && name@[0] == 46 && name@[1] == 46 {
            assert(name@ =~= seq![46u16, 46u16]);
        }
    }
    r
}

/// Parses the `FILE_ID_BOTH_DIR_INFO` records of `buf[..len]`, following the
/// `NextEntryOffset` chain from the start, into entries in chain order,
/// leaving out `.` and `..`. The chain ends at a zero `NextEntryOffset` or at
/// a record whose header and name do not fit in `len` bytes.
pub fn parse_buffer_entries(buf: &[u8], len: usize) -> (r: Vec<DirEntryInfo>)
    requires
        len <= buf@.len(),
    ensures
        r@.len() == nt_records_from(buf@, len as int, 0).len(),
        forall|k: int|
            0 <= k < r@.len() ==> info_matches(
                #[trigger] r@[k],
                nt_records_from(buf@, len as int, 0)[k],
            ),
{
    let mut out: Vec<DirEntryInfo> = Vec::new();
    let mut offset: usize = 0;
    let ghost mut done: Seq<NtRecord> = Seq::empty();
    while offset <= len && len - offset >= NT_FILE_NAME_OFFSET
        invariant_except_break
            done + nt_records_from(buf@, len as int, offset as int) == nt_records_from(
                buf@,
                len as int,
                0,
            ),
            out@.len() == done.len(),
            forall|k: int| 0 <= k < out@.len() ==> info_matches(#[trigger] out@[k], done[k]),
        invariant
            len <= buf@.len(),
            offset <= len,
        ensures
            out@.len() == nt_records_from(buf@, len as int, 0).len(),
            forall|k: int|
                0 <= k < out@.len() ==> info_matches(
                    #[trigger] out@[k],
                    nt_records_from(buf@, len as int, 0)[k],
                ),
        decreases len - offset,
    {
        let name_bytes = read_u32(buf, offset + NT_FILE_NAME_LENGTH_OFFSET) as usize;
        let chars = name_bytes / 2;
        if chars > (len - offset - NT_FILE_NAME_OFFSET) / 2 {
            proof {
                assert(nt_records_from(buf@, len as int, offset as int) =~= Seq::<NtRecord>::empty());
                assert(done + Seq::<NtRecord>::empty() =~= done);
            }
            break;
        }
        let name_start = offset + NT_FILE_NAME_OFFSET;
        let mut name: Vec<u16> = Vec::new();
        let mut k: usize = 0;
        while k < chars
            invariant
                k <= chars,
                name_start + 2 * chars <= len <= buf@.len(),
                name@ =~= name_units(buf@, name_start as int, chars as nat).take(k as int),
            decreases chars - k,
        {
            let unit = read_u16(buf, name_start + 2 * k);
            name.push(unit);
            k = k + 1;
            assert(name@ =~= name_units(buf@, name_start as int, chars as nat).take(k as int));
        }
        let ghost rec = record_at(buf@, offset as int, chars as nat);
        assert(name@ =~= rec.name);
        let next = read_u32(buf, offset + NT_NEXT_ENTRY_OFFSET) as usize;
        let ghost rest = nt_records_from(buf@, len as int, offset as int);
        let ghost old_done = done;
        if !is_dot_or_dotdot_wide(&name) {
            let info = DirEntryInfo {
                file_name: name,
                file_attributes: read_u32(buf, offset + NT_FILE_ATTRIBUTES_OFFSET),
                file_size: read_u64(buf, offset + NT_END_OF_FILE_OFFSET),
                creation_time: #[verifier::truncate] (read_u64(buf, offset + NT_CREATION_TIME_OFFSET) as i64),
                last_write_time: #[verifier::truncate] (read_u64(buf, offset + NT_LAST_WRITE_TIME_OFFSET) as i64),
                last_access_time: #[verifier::truncate] (read_u64(buf, offset + NT_LAST_ACCESS_TIME_OFFSET) as i64),
                file_id: read_u64(buf, offset + NT_FILE_ID_OFFSET),
                number_of_links: None,
                volume_serial_number: None,
            };
            out.push(info);
            proof {
                done = done.push(rec);
            }
        }
        if next == 0 || next > len - offset {
            proof {
                if is_dot_units(rec.name) {
                    assert(rest =~= Seq::<NtRecord>::empty());
                } else {
                    assert(rest =~= seq![rec]);
                }
                assert(done =~= old_done + rest);
            }
            break;
        }
        offset = offset + next;
        proof {
            if is_dot_units(rec.name) {
                assert(rest =~= nt_records_from(buf@, len as int, offset as int));
            } else {
                assert(rest =~= seq![rec] + nt_records_from(buf@, len as int, offset as int));
            }
        }
    }
    out
}

/// Windows file-system type, which decides how link counts are queried.
#[derive(Debug, Clone, Copy, PartialEq, Eq, Structural)]
pub enum FsType {
    /// NTFS: hard links, link counts are queried per entry.
    Ntfs,
    /// ReFS: hard links, link counts are queried per entry.
    Refs,
    /// FAT32 (also FAT12/16): no hard links, the link count is always 1.
    Fat32,
    /// exFAT: no hard links, the link count is always 1.
    ExFat,
    /// Unknown file system: link counts are queried per entry.
    Unknown,
}

impl FsType {
    /// FAT32 and exFAT have no hard links, so the link-count query can be
    /// skipped and every count set to 1.
    pub fn is_fat_family(self) -> (r: bool)
        ensures
            r == (self == FsType::Fat32 || self == FsType::ExFat),
    {
        match self {
            FsType::Fat32 | FsType::ExFat => true,
            _ => false,
        }
    }
}

/// The UTF-16 units of an ASCII name.
pub open spec fn ascii_units(s: Seq<char>) -> Seq<u16> {
    Seq::new(s.len(), |k: int| s[k] as u16)
}

/// The units before the first NUL (all of them when there is none).
pub open spec fn before_nul(buf: Seq<u16>) -> Seq<u16>
    decreases buf.len(),
{
    if buf.len() == 0 {
        Seq::empty()
    } else if buf[0] == 0 {
        Seq::empty()
    } else {
        seq![buf[0]] + before_nul(buf.drop_first())
    }
}

/// The file-system type named by `name`: "NTFS", "ReFS", "FAT32", "exFAT",
/// and, as FAT32, "FAT" and "FAT16"; any other name is unknown.
pub open spec fn spec_fs_type_from_name(name: Seq<u16>) -> FsType {
    if name == seq![78u16, 84, 70, 83] {
        FsType::Ntfs
    } else if name == seq![82u16, 101, 70, 83] {
        FsType::Refs
    } else if name == seq![70u16, 65, 84, 51, 50] {
        FsType::Fat32
    } else if name == seq![101u16, 120, 70, 65, 84] {
        FsType::ExFat
    } else if name == seq![70u16, 65, 84] {
        FsType::Fat32
    } else if name == seq![70u16, 65, 84, 49, 54] {
        FsType::Fat32
    } else {
        FsType::Unknown
    }
}

fn units_equal(a: &[u16], n: usize, b: &[u16]) -> (r: bool)
    requires
        n <= a@.len(),
    ensures
        r == (a@.take(n as int) == b@),
{
    if n != b.len() {
        proof {
            assert(a@.take(n as int).len() != b@.len());
        }
        return false;
    }
    let mut i: usize = 0;
    while i < n
        invariant
            i <= n <= a@.len(),
            n == b@.len(),
            forall|k: int| 0 <= k < i ==> a@[k] == b@[k],
        decreases n - i,
    {
        if a[i] != b[i] {
            proof {
                assert(a@.take(n as int)[i as int] != b@[i as int]);
            }
            return false;
        }
        i = i + 1;
    }
    assert(a@.take(n as int) =~= b@);
    true
}

/// The file-system type from the NUL-terminated name buffer that
/// `GetVolumeInformationByHandleW` fills: the name is the units before the
/// first NUL (the whole buffer when there is none).
pub fn fs_type_from_name(buf: &[u16]) -> (t: FsType)
    ensures
        t == spec_fs_type_from_name(before_nul(buf@)),
{
    let mut n: usize = 0;
    assert(buf@.skip(0) =~= buf@);
    assert(buf@.take(0) + before_nul(buf@) =~= before_nul(buf@));
    while n < buf.len() && buf[n] != 0
        invariant
            n <= buf@.len(),
            before_nul(buf@) == buf@.take(n as int) + before_nul(buf@.skip(n as int)),
        decreases buf@.len() - n,
    {
        proof {
            let rest = buf@.skip(n as int);
            assert(rest.drop_first() =~= buf@.skip(n + 1));
            assert(buf@.take(n + 1) =~= buf@.take(n as int) + seq![rest[0]]);
        }
        n = n + 1;
    }
    proof {
        let rest = buf@.skip(n as int);
        assert(before_nul(rest) =~= Seq::<u16>::empty());
        assert(buf@.take(n as int) + Seq::<u16>::empty() =~= buf@.take(n as int));
    }
    let ntfs: [u16; 4] = [78, 84, 70, 83];
    let refs: [u16; 4] = [82, 101, 70, 83];
    let fat32: [u16; 5] = [70, 65, 84, 51, 50];
    let exfat: [u16; 5] = [101, 120, 70, 65, 84];
    let fat: [u16; 3] = [70, 65, 84];
    let fat16: [u16; 5] = [70, 65, 84, 49, 54];
    proof {
        assert(ntfs@ =~= seq![78u16, 84, 70, 83]);
        assert(refs@ =~= seq![82u16, 101, 70, 83]);
        assert(fat32@ =~= seq![70u16, 65, 84, 51, 50]);
        assert(exfat@ =~= seq![101u16, 120, 70, 65, 84]);
        assert(fat@ =~= seq![70u16, 65, 84]);
        assert(fat16@ =~= seq![70u16, 65, 84, 49, 54]);
    }
    if units_equal(buf, n, ntfs.as_slice()) {
        FsType::Ntfs
    } else if units_equal(buf, n, refs.as_slice()) {
        FsType::Refs
    } else if units_equal(buf, n, fat32.as_slice()) {
        FsType::Fat32
    } else if units_equal(buf, n, exfat.as_slice()) {
        FsType::ExFat
    } else if units_equal(buf, n, fat.as_slice()) {
        FsType::Fat32
    } else if units_equal(buf, n, fat16.as_slice()) {
        FsType::Fat32
    } else {
        FsType::Unknown
    }
}

/// The entry is a directory (`FILE_ATTRIBUTE_DIRECTORY` is set): the
/// entries that streaming enumeration schedules at once.
pub fn is_directory(attributes: u32) -> (r: bool)
    ensures
        r == (attributes & FILE_ATTRIBUTE_DIRECTORY != 0),
{
    attributes & FILE_ATTRIBUTE_DIRECTORY != 0
}

/// Whether the link count of `entry` is queried: directories always, files
/// only when `query_file_nlinks` is set, and never an entry without a name.
pub fn needs_nlink_query(entry: &DirEntryInfo, query_file_nlinks: bool) -> (r: bool)
    ensures
        r == ((query_file_nlinks || entry.file_attributes & FILE_ATTRIBUTE_DIRECTORY != 0)
            && entry.file_name@.len() > 0),
{
    (query_file_nlinks || is_directory(entry.file_attributes)) && entry.file_name.len() > 0
}

/// Records the outcome of a link-count query: a successful query (status 0)
/// sets the count, a failed one leaves the entry as it was.
pub fn record_nlink_result(entry: &mut DirEntryInfo, status: i32, number_of_links: u32)
    ensures
        status == 0 ==> final(entry).number_of_links == Some(number_of_links),
        status != 0 ==> final(entry).number_of_links == old(entry).number_of_links,
        final(entry).file_name == old(entry).file_name,
        final(entry).file_attributes == old(entry).file_attributes,
        final(entry).file_size == old(entry).file_size,
        final(entry).creation_time == old(entry).creation_time,
        final(entry).last_write_time == old(entry).last_write_time,
        final(entry).last_access_time == old(entry).last_access_time,
        final(entry).file_id == old(entry).file_id,
        final(entry).volume_serial_number == old(entry).volume_serial_number,
{
    if status == 0 {
        entry.number_of_links = Some(number_of_links);
    }
}

/// The UTF-16 encoding of one character: one unit below U+10000, else a
/// surrogate pair.
pub open spec fn utf16_of_char(c: char) -> Seq<u16> {
    let v = c as u32;
    if v < 0x10000 {
        seq![v as u16]
    } else {
        let u = (v - 0x10000) as u32;
        seq![
            #[verifier::truncate] ((0xD800 + u / 1024) as u16),
            #[verifier::truncate] ((0xDC00 + u % 1024) as u16),
        ]
    }
}

/// The UTF-16 encoding of a string.
pub open spec fn utf16_of(s: Seq<char>) -> Seq<u16>
    decreases s.len(),
{
    if s.len() == 0 {
        Seq::empty()
    } else {
        utf16_of(s.drop_last()) + utf16_of_char(s.last())
    }
}

/// `s` in UTF-16 with a terminating NUL unit, as the wide-character Windows
/// APIs take it.
pub fn to_wide_null(s: &str) -> (r: Vec<u16>)
    ensures
        r@ == utf16_of(s@).push(0),
{
    let mut out: Vec<u16> = Vec::new();
    let ghost chars = s@;
    for c in it: s.chars()
        invariant
            it.seq() == chars,
            out@ == utf16_of(chars.take(it.index() as int)),
    {
        let ghost i = it.index() as int;
        assert(chars.take(i + 1).drop_last() =~= chars.take(i));
        assert(c == chars[i]);
        assert(chars.take(i + 1).last() == c);
        let v = c as u32;
        if v < 0x10000 {
            out.push(v as u16);
        } else {
            let u = v - 0x10000;
            let hi = #[verifier::truncate] ((0xD800 + u / 1024) as u16);
            let lo = #[verifier::truncate] ((0xDC00 + u % 1024) as u16);
            assert(utf16_of_char(c) == seq![hi, lo]);
            out.push(hi);
            out.push(lo);
        }
        assert(out@ =~= utf16_of(chars.take(i + 1)));
    }
    assert(chars.take(chars.len() as int) =~= chars);
    out.push(0);
    out
}

/// A path, given as the UTF-16 units of its OS string, with the terminating
/// NUL unit that `CreateFileW` and the other wide-character APIs take.
pub fn path_to_widestring(units: Vec<u16>) -> (r: Vec<u16>)
    ensures
        r@ == units@.push(0),
{
    let mut wide = units;
    wide.push(0);
    wide
}

/// What to do after one `NtQueryDirectoryFileEx` call.
#[derive(Debug, Clone, Copy, PartialEq, Eq, Structural)]
pub enum QueryStep {
    /// The enumeration is complete.
    Done,
    /// The call failed with this status.
    Failed(i32),
    /// Parse the first `usize` bytes of the buffer, then query again.
    Parse(usize),
}

/// Classifies the outcome of a query into a buffer of `buffer_len` bytes:
/// `STATUS_NO_MORE_FILES` or an empty batch ends the enumeration, any other
/// non-zero status is an error, and a batch is parsed over the bytes the call
/// reports (never beyond the buffer).
pub fn classify_query(status: i32, bytes_returned: usize, buffer_len: usize) -> (r: QueryStep)
    ensures
        r == (if status == STATUS_NO_MORE_FILES {
            QueryStep::Done
        } else if status != 0 {
            QueryStep::Failed(status)
        } else if bytes_returned == 0 {
            QueryStep::Done
        } else if bytes_returned <= buffer_len {
            QueryStep::Parse(bytes_returned)
        } else {
            QueryStep::Parse(buffer_len)
        }),
{
    if status == STATUS_NO_MORE_FILES {
        QueryStep::Done
    } else if status != 0 {
        QueryStep::Failed(status)
    } else if bytes_returned == 0 {
        QueryStep::Done
    } else if bytes_returned <= buffer_len {
        QueryStep::Parse(bytes_returned)
    } else {
        QueryStep::Parse(buffer_len)
    }
}

} // verus!
