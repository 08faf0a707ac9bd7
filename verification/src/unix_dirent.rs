//! Records that Linux `getdents64(2)` writes into a buffer:
//! `d_ino` (8 bytes) | `d_off` (8) | `d_reclen` (2) | `d_type` (1) |
//! `d_name` (NUL-terminated), each record `d_reclen` bytes long.
//! Multi-byte fields are in the byte order of the machine that wrote them;
//! the parser takes that order as an argument, and the native one is read
//! once from std.

use vstd::prelude::*;

verus! {

/// Offset of `d_ino` in a record.
pub const D_INO_OFFSET: usize = 0;
/// Offset of `d_off` in a record.
pub const D_OFF_OFFSET: usize = 8;
/// Offset of `d_reclen` in a record.
pub const D_RECLEN_OFFSET: usize = 16;
/// Offset of `d_type` in a record.
pub const D_TYPE_OFFSET: usize = 18;
/// Offset of `d_name` in a record (fixed by the kernel ABI).
pub const DIRENT_NAME_OFFSET: usize = 19;
/// Size of the fixed record header as a C struct (`d_ino`, `d_off`,
/// `d_reclen`, `d_type`, padded to 8-byte alignment); a record is only
/// parsed when at least this many bytes remain.
pub const DIRENT_HEADER_SIZE: usize = 24;
/// Size of the buffer handed to `getdents64` (64 KiB).
pub const DENTS_BUF_SIZE: usize = 65536;

/// `d_type` of an unknown file type.
pub const DT_UNKNOWN: u8 = 0;
/// `d_type` of a FIFO.
pub const DT_FIFO: u8 = 1;
/// `d_type` of a character device.
pub const DT_CHR: u8 = 2;
/// `d_type` of a directory.
pub const DT_DIR: u8 = 4;
/// `d_type` of a block device.
pub const DT_BLK: u8 = 6;
/// `d_type` of a regular file.
pub const DT_REG: u8 = 8;
/// `d_type` of a symbolic link.
pub const DT_LNK: u8 = 10;
/// `d_type` of a socket.
pub const DT_SOCK: u8 = 12;

/// `st_mode` file-type bits of a FIFO.
pub const S_IFIFO: u32 = 0o010000;
/// `st_mode` file-type bits of a character device.
pub const S_IFCHR: u32 = 0o020000;
/// `st_mode` file-type bits of a directory.
pub const S_IFDIR: u32 = 0o040000;
/// `st_mode` file-type bits of a block device.
pub const S_IFBLK: u32 = 0o060000;
/// `st_mode` file-type bits of a regular file.
pub const S_IFREG: u32 = 0o100000;
/// `st_mode` file-type bits of a symbolic link.
pub const S_IFLNK: u32 = 0o120000;
/// `st_mode` file-type bits of a socket.
pub const S_IFSOCK: u32 = 0o140000;

/// One directory record: its `d_type` and its name bytes (without the NUL).
#[derive(Debug)]
pub struct RawDirent {
    pub d_type: u8,
    pub name: Vec<u8>,
}

impl View for RawDirent {
    type V = (u8, Seq<u8>);

    open spec fn view(&self) -> (u8, Seq<u8>) {
        (self.d_type, self.name@)
    }
}

/// A 16-bit value from its two bytes, in little-endian or big-endian order.
pub open spec fn u16_of(b0: u8, b1: u8, little: bool) -> int {
    if little {
        b0 as int + 256 * b1 as int
    } else {
        256 * b0 as int + b1 as int
    }
}

/// The `d_reclen` field of the record at `off`, in the given byte order.
pub open spec fn reclen_at(buf: Seq<u8>, off: int, little: bool) -> int {
    u16_of(buf[off + 16], buf[off + 17], little)
}

/// `u16::from_ne_bytes`: the value of two bytes in the machine's byte order,
/// which is little-endian or big-endian, so one of the two readings.
#[verifier::external_body]
fn u16_from_ne_bytes(b0: u8, b1: u8) -> (r: u16)
    ensures
        r == u16_of(b0, b1, true) || r == u16_of(b0, b1, false),
{
    u16::from_ne_bytes([b0, b1])
}

/// Whether this machine stores multi-byte integers little-endian: the two
/// bytes `1, 0` read in its byte order give 1. (Which it is depends on the
/// machine.)
pub fn native_little_endian() -> bool {
    u16_from_ne_bytes(1, 0) == 1
}

/// The end of a NUL-terminated name that starts at `start` and may not reach
/// `end`: the first NUL at or after `start`, else `end`.
pub open spec fn name_end(buf: Seq<u8>, start: int, end: int) -> int
    decreases end - start,
{
    if start >= end {
        end
    } else if buf[start] == 0 {
        start
    } else {
        name_end(buf, start + 1, end)
    }
}

/// The records of `buf[..len]` from offset `off` on: parsing stops at a
/// record whose header does not fit, whose length is zero, or which runs past
/// `len`.
pub open spec fn dirents_from(buf: Seq<u8>, len: int, off: int, little: bool) -> Seq<(u8, Seq<u8>)>
    decreases len - off,
{
    if off < 0 || off + DIRENT_HEADER_SIZE > len {
        Seq::empty()
    } else {
        let r = reclen_at(buf, off, little);
        if r == 0 || off + r > len {
            Seq::empty()
        } else {
            let ns = off + DIRENT_NAME_OFFSET;
            let ne = if ns <= off + r {
                name_end(buf, ns, off + r)
            } else {
                ns
            };
            seq![(buf[off + 18], buf.subrange(ns, ne))] + dirents_from(
                buf,
                len,
                off + r,
                little,
            )
        }
    }
}

proof fn lemma_name_end_bounds(buf: Seq<u8>, start: int, end: int)
    requires
        start <= end,
    ensures
        start <= name_end(buf, start, end) <= end,
    decreases end - start,
{
    if start < end && buf[start] != 0 {
        lemma_name_end_bounds(buf, start + 1, end);
    }
}

/// A name runs up to the first NUL byte: every byte from `start` up to
/// `name_end` is not NUL, and `name_end` is a NUL byte unless it is `end`.
pub proof fn lemma_name_is_bytes_before_first_nul(buf: Seq<u8>, start: int, end: int)
    requires
        0 <= start <= end <= buf.len(),
    ensures
        start <= name_end(buf, start, end) <= end,
        forall|i: int| start <= i < name_end(buf, start, end) ==> #[trigger] buf[i] != 0,
        name_end(buf, start, end) < end ==> buf[name_end(buf, start, end)] == 0,
    decreases end - start,
{
    if start < end && buf[start] != 0 {
        lemma_name_is_bytes_before_first_nul(buf, start + 1, end);
    }
}

/// Each parsed record is the record in the buffer: its type is the
/// `d_type` byte, and its name is exactly the bytes of `d_name` before the
/// first NUL (or before the end of the record when it holds no NUL): every
/// name byte is the buffer byte at its place and not NUL, and the byte after
/// the name is a NUL unless the record ends there.
pub proof fn lemma_record_name_is_d_name(buf: Seq<u8>, len: int, off: int, little: bool)
    requires
        0 <= off,
        len <= buf.len(),
        dirents_from(buf, len, off, little).len() > 0,
    ensures
        ({
            let d = dirents_from(buf, len, off, little)[0];
            let rec_end = off + reclen_at(buf, off, little);
            let ns = off + DIRENT_NAME_OFFSET;
            &&& d.0 == buf[off + D_TYPE_OFFSET]
            &&& forall|i: int| 0 <= i < d.1.len() ==> #[trigger] d.1[i] != 0 && d.1[i] == buf[ns + i]
            &&& d.1.len() == 0 || ns + d.1.len() <= rec_end
            &&& ns + d.1.len() < rec_end ==> buf[ns + d.1.len()] == 0
        }),
{
    let r = reclen_at(buf, off, little);
    let ns = off + DIRENT_NAME_OFFSET;
    if ns <= off + r {
        lemma_name_is_bytes_before_first_nul(buf, ns, off + r);
        let d = dirents_from(buf, len, off, little)[0];
        assert forall|i: int| 0 <= i < d.1.len() implies #[trigger] d.1[i] != 0 && d.1[i]
            == buf[ns + i] by {
            assert(buf[ns + i] != 0);
        }
    }
}

/// Copies the NUL-terminated name at `start`, looking no further than `end`.
fn copy_name(buf: &[u8], start: usize, end: usize) -> (name: Vec<u8>)
    requires
        start <= end <= buf@.len(),
    ensures
        name@ == buf@.subrange(start as int, name_end(buf@, start as int, end as int)),
        forall|i: int| 0 <= i < name@.len() ==> #[trigger] name@[i] != 0 && name@[i] == buf@[start
            + i],
        start + name@.len() < end ==> buf@[start + name@.len()] == 0,
{
    let mut name: Vec<u8> = Vec::new();
    let mut i = start;
    while i < end && buf[i] != 0
        invariant
            start <= i <= end <= buf@.len(),
            name@ == buf@.subrange(start as int, i as int),
            forall|j: int| start <= j < i ==> #[trigger] buf@[j] != 0,
            name_end(buf@, i as int, end as int) == name_end(buf@, start as int, end as int),
        decreases end - i,
    {
        name.push(buf[i]);
        i = i + 1;
        assert(name@ =~= buf@.subrange(start as int, i as int));
    }
    name
}

/// Parses the records in `buf[..len]` into `(d_type, name)` pairs, in buffer
/// order. Parsing stops, without error, at a record whose header does not fit
/// in the remaining bytes, whose `d_reclen` is zero, or which runs past
/// `len`; a name is cut at its NUL, or at the end of its record (a record
/// too short to hold a name gives an empty one). The `.` and
/// `..` entries are returned like any other. `d_reclen` is read in the byte
/// order `little` gives.
pub fn parse_dirents_in(buf: &[u8], len: usize, little: bool) -> (r: Vec<RawDirent>)
    requires
        len <= buf@.len(),
    ensures
        r@.map_values(|d: RawDirent| d@) == dirents_from(buf@, len as int, 0, little),
{
    let mut out: Vec<RawDirent> = Vec::new();
    let mut offset: usize = 0;
    while offset <= len && len - offset >= DIRENT_HEADER_SIZE
        invariant
            len <= buf@.len(),
            offset <= len,
            out@.map_values(|d: RawDirent| d@) + dirents_from(buf@, len as int, offset as int, little)
                == dirents_from(buf@, len as int, 0, little),
        ensures
            out@.map_values(|d: RawDirent| d@) == dirents_from(buf@, len as int, 0, little),
        decreases len - offset,
    {
        let reclen = if little {
            (buf[offset + 16] as usize) + 256 * (buf[offset + 17] as usize)
        } else {
            256 * (buf[offset + 16] as usize) + (buf[offset + 17] as usize)
        };
        if reclen == 0 || reclen > len - offset {
            proof {
                assert(dirents_from(buf@, len as int, offset as int, little) =~= Seq::<(u8, Seq<u8>)>::empty());
                assert(out@.map_values(|d: RawDirent| d@) + Seq::<(u8, Seq<u8>)>::empty() =~= out@.map_values(
                    |d: RawDirent| d@,
                ));
            }
            break;
        }
        let ns = offset + DIRENT_NAME_OFFSET;
        let end = offset + reclen;
        proof {
            if ns <= end {
                lemma_name_end_bounds(buf@, ns as int, end as int);
            }
        }
        let name = if ns <= end {
            copy_name(buf, ns, end)
        } else {
            Vec::new()
        };
        let ghost prev = out@;
        let ghost rest = dirents_from(buf@, len as int, offset as int, little);
        let d = RawDirent { d_type: buf[offset + 18], name };
        out.push(d);
        proof {
            if ns > end {
                assert(name@ =~= buf@.subrange(ns as int, ns as int));
            }
            assert(rest == seq![d@] + dirents_from(buf@, len as int, end as int, little));
            assert(out@.map_values(|d: RawDirent| d@) =~= prev.map_values(|d: RawDirent| d@).push(
                d@,
            ));
            assert(out@.map_values(|d: RawDirent| d@) + dirents_from(buf@, len as int, end as int, little)
                =~= prev.map_values(|d: RawDirent| d@) + rest);
        }
        offset = end;
    }
    out
}

/// Parses the records in `buf[..len]` as `parse_dirents_in` does, reading
/// `d_reclen` in the byte order of this machine, which wrote them.
pub fn parse_dirents(buf: &[u8], len: usize) -> (r: Vec<RawDirent>)
    requires
        len <= buf@.len(),
    ensures
        exists|little: bool|
            r@.map_values(|d: RawDirent| d@) == dirents_from(buf@, len as int, 0, little),
{
    let little = native_little_endian();
    parse_dirents_in(buf, len, little)
}

/// The name is `.` or `..`.
pub open spec fn is_dot_name(name: Seq<u8>) -> bool {
    name == seq![46u8] || name == seq![46u8, 46u8]
}

/// The records without the `.` and `..` entries, order kept.
pub open spec fn without_dots(s: Seq<(u8, Seq<u8>)>) -> Seq<(u8, Seq<u8>)>
    decreases s.len(),
{
    if s.len() == 0 {
        Seq::empty()
    } else {
        let prev = without_dots(s.drop_last());
        if is_dot_name(s.last().1) {
            prev
        } else {
            prev.push(s.last())
        }
    }
}

/// Whether a name is `.` or `..`.
pub fn is_dot_or_dotdot(name: &Vec<u8>) -> (r: bool)
    ensures
        r == is_dot_name(name@),
{
    let r = (name.len() == 1 && name[0] == 46) || (name.len() == 2 && name[0] == 46 && name[1]
        == 46);
    proof {
        if name@.len() == 1 && name@[0] == 46 {
            assert(name@ =~= seq![46u8]);
        }
        if name@.len() == 2 && name@[0] == 46 && name@[1] == 46 {
            assert(name@ =~= seq![46u8, 46u8]);
        }
    }
    r
}

/// One step of enumerating a directory: appends to `entries` the records of
/// the `getdents64` buffer `buf[..len]` (with `d_reclen` in the byte order
/// `little` gives), in buffer order, leaving out `.` and `..`.
pub fn collect_dir_entries(buf: &[u8], len: usize, little: bool, entries: &mut Vec<RawDirent>)
    requires
        len <= buf@.len(),
    ensures
        final(entries)@.map_values(|d: RawDirent| d@) == old(entries)@.map_values(
            |d: RawDirent| d@,
        ) + without_dots(dirents_from(buf@, len as int, 0, little)),
{
    let mut parsed = parse_dirents_in(buf, len, little);
    let ghost orig = parsed@;
    let n = parsed.len();
    let mut rev: Vec<RawDirent> = Vec::new();
    while parsed.len() > 0
        invariant
            parsed.len() <= n,
            n == orig.len(),
            parsed@ == orig.take(parsed.len() as int),
            rev@.len() == n - parsed.len(),
            forall|k: int| 0 <= k < rev@.len() ==> #[trigger] rev@[k] == orig[n - 1 - k],
        decreases parsed.len(),
    {
        let d = parsed.pop().unwrap();
        rev.push(d);
        assert(parsed@ =~= orig.take(parsed.len() as int));
    }
    let ghost base = entries@.map_values(|d: RawDirent| d@);
    let ghost views = orig.map_values(|d: RawDirent| d@);
    while rev.len() > 0
        invariant
            rev@.len() <= n,
            n == orig.len(),
            views == orig.map_values(|d: RawDirent| d@),
            forall|k: int| 0 <= k < rev@.len() ==> #[trigger] rev@[k] == orig[n - 1 - k],
            entries@.map_values(|d: RawDirent| d@) == base + without_dots(
                views.take(n - rev@.len()),
            ),
        decreases rev.len(),
    {
        let ghost done = (n - rev@.len()) as int;
        let d = rev.pop().unwrap();
        assert(d == orig[done]);
        assert(views.take(done + 1).drop_last() =~= views.take(done));
        assert(views.take(done + 1).last() == d@);
        let ghost prev = entries@;
        if !is_dot_or_dotdot(&d.name) {
            entries.push(d);
            assert(entries@.map_values(|d: RawDirent| d@) =~= prev.map_values(|d: RawDirent| d@).push(d@));
        }
    }
    assert(views.take(n as int) =~= views);
}

/// The `st_mode` file-type bits of a `d_type`: directory, regular file,
/// symbolic link, FIFO, socket, block and character device map to their
/// `S_IF*` bits; any other value (`DT_UNKNOWN` among them) gives `None`, and
/// the caller falls back to `fstatat`.
pub fn mode_from_dtype(d_type: u8) -> (r: Option<u32>)
    ensures
        r == (if d_type == DT_DIR {
            Some(S_IFDIR)
        } else if d_type == DT_REG {
            Some(S_IFREG)
        } else if d_type == DT_LNK {
            Some(S_IFLNK)
        } else if d_type == DT_FIFO {
            Some(S_IFIFO)
        } else if d_type == DT_SOCK {
            Some(S_IFSOCK)
        } else if d_type == DT_BLK {
            Some(S_IFBLK)
        } else if d_type == DT_CHR {
            Some(S_IFCHR)
        } else {
            None::<u32>
        }),
{
    if d_type == DT_DIR {
        Some(S_IFDIR)
    } else if d_type == DT_REG {
        Some(S_IFREG)
    } else if d_type == DT_LNK {
        Some(S_IFLNK)
    } else if d_type == DT_FIFO {
        Some(S_IFIFO)
    } else if d_type == DT_SOCK {
        Some(S_IFSOCK)
    } else if d_type == DT_BLK {
        Some(S_IFBLK)
    } else if d_type == DT_CHR {
        Some(S_IFCHR)
    } else {
        None
    }
}

impl RawDirent {
    /// Whether the record names a directory (`d_type == DT_DIR`), the
    /// entries that streaming enumeration schedules at once.
    pub fn is_dir(&self) -> (r: bool)
        ensures
            r == (self.d_type == DT_DIR),
    {
        self.d_type == DT_DIR
    }
}

} // verus!

verus! {

/// The positions, in order, of the directory entries (`DT_DIR`) among
/// entries with the given `d_type`s.
pub open spec fn dir_positions(types: Seq<u8>) -> Seq<int>
    decreases types.len(),
{
    if types.len() == 0 {
        Seq::empty()
    } else {
        let prev = dir_positions(types.drop_last());
        if types.last() == DT_DIR {
            prev.push(types.len() - 1)
        } else {
            prev
        }
    }
}

/// The positions of the directory entries of a batch, in order: the entries
/// that a streaming enumeration hands on to be scheduled at once. The other
/// entries (files, links, and `DT_UNKNOWN`, whose type is not known without
/// a `stat`) are not handed on.
pub fn subdir_positions(batch: &Vec<RawDirent>) -> (r: Vec<usize>)
    ensures
        r@.map_values(|k: usize| k as int) == dir_positions(
            batch@.map_values(|d: RawDirent| d.d_type),
        ),
{
    let ghost types = batch@.map_values(|d: RawDirent| d.d_type);
    let mut out: Vec<usize> = Vec::new();
    let n = batch.len();
    let mut i: usize = 0;
    while i < n
        invariant
            i <= n,
            n == batch@.len(),
            types == batch@.map_values(|d: RawDirent| d.d_type),
            out@.map_values(|k: usize| k as int) == dir_positions(types.take(i as int)),
        decreases n - i,
    {
        assert(types.take(i + 1).drop_last() =~= types.take(i as int));
        assert(types.take(i + 1).last() == batch@[i as int].d_type);
        let ghost before = out@;
        if batch[i].is_dir() {
            out.push(i);
            assert(out@.map_values(|k: usize| k as int) =~= before.map_values(|k: usize| k as int).push(
                i as int,
            ));
        }
        i = i + 1;
    }
    assert(types.take(n as int) =~= types);
    out
}

/// The buffer as `with_tls_buffer` lends it: grown with zeros to
/// `DENTS_BUF_SIZE` bytes when shorter.
pub open spec fn grown_buffer(buf: Seq<u8>) -> Seq<u8> {
    if buf.len() < DENTS_BUF_SIZE {
        buf + Seq::new((DENTS_BUF_SIZE - buf.len()) as nat, |i: int| 0u8)
    } else {
        buf
    }
}

/// Lends `f` the first `DENTS_BUF_SIZE` bytes of `buf`, growing `buf` with
/// zeros to that size first when it is shorter, and returns what `f`
/// returns.
pub fn with_tls_buffer<R, F: FnOnce(&mut [u8]) -> R>(buf: &mut Vec<u8>, f: F) -> (r: R)
    requires
        forall|s: &mut [u8]| (*s)@.len() == DENTS_BUF_SIZE ==> call_requires(f, (s,)),
    ensures
        exists|s: &mut [u8]|
            (*s)@ == grown_buffer(old(buf)@).subrange(0, DENTS_BUF_SIZE as int) && call_ensures(
                f,
                (s,),
                r,
            ),
{
    if buf.len() < DENTS_BUF_SIZE {
        buf.resize(DENTS_BUF_SIZE, 0);
    }
    let (head, _rest) = buf.as_mut_slice().split_at_mut(DENTS_BUF_SIZE);
    f(head)
}

} // verus!
