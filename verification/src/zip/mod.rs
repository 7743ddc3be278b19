use vstd::prelude::*;
use vstd::slice::slice_subrange;
use vstd::slice::slice_to_vec;
use vstd::string::StringExecFns;
use vstd::string::StringSliceAdditionalSpecFns;

use crate::text::decimal;
use crate::text::push_decimal;
use crate::zip::format::{
    eocd_fits, eocd_position, eocd_record, eocd_signature_at, find_eocd, last_signature_below, le16,
    le32, u16_at, u32_at, EndOfCentralDirectory, CENTRAL_DIRECTORY_SIGNATURE,
    END_OF_CENTRAL_DIRECTORY_SIGNATURE, LOCAL_FILE_HEADER_SIGNATURE,
};

pub mod format;

verus! {

/// Where an entry's data lives, as recorded in its central-directory header.
#[derive(Clone, Copy, Debug, PartialEq, Eq, Structural)]
pub struct ArchiveEntry {
    pub method: u16,
    pub compressed_size: u32,
    pub local_header_offset: u32,
}

/// A zip archive (such as a jar) held in memory together with the path it was read from.
pub struct ZipArchive {
    path: String,
    data: Vec<u8>,
}

/// Largest number of trailing bytes searched for the end-of-central-directory record.
pub const TAIL_WINDOW: usize = 65_557;

/// The trailing bytes of an archive that are searched for its end record.
pub open spec fn archive_tail(data: Seq<u8>) -> Seq<u8> {
    if data.len() <= TAIL_WINDOW {
        data
    } else {
        data.subrange(data.len() - TAIL_WINDOW, data.len() as int)
    }
}

/// The archive's end record, if present, lies inside the archive's tail.
pub open spec fn end_record_fits(data: Seq<u8>) -> bool {
    eocd_fits(archive_tail(data))
}

/// The central directory that the end record points at; `None` when it runs past the archive.
pub open spec fn central_directory(data: Seq<u8>, end: EndOfCentralDirectory) -> Option<Seq<u8>> {
    if end.directory_size == 0 {
        Some(Seq::empty())
    } else if end.directory_offset + end.directory_size <= data.len() {
        Some(data.subrange(end.directory_offset as int, end.directory_offset + end.directory_size))
    } else {
        None
    }
}

/// The entry described by the central-directory header at `dir[cursor..]`.
pub open spec fn header_entry(dir: Seq<u8>, cursor: int) -> ArchiveEntry {
    ArchiveEntry {
        method: le16(dir, cursor + 10) as u16,
        compressed_size: le32(dir, cursor + 20) as u32,
        local_header_offset: le32(dir, cursor + 42) as u32,
    }
}

/// The central-directory header at `dir[cursor..]` is truncated or lacks its signature.
pub open spec fn header_corrupt(dir: Seq<u8>, cursor: int) -> bool {
    cursor + 46 > dir.len() || le32(dir, cursor) != CENTRAL_DIRECTORY_SIGNATURE
}

/// End of the file name of the header at `dir[cursor..]`.
pub open spec fn name_end(dir: Seq<u8>, cursor: int) -> int {
    cursor + 46 + le16(dir, cursor + 28)
}

/// The header at `dir[cursor..]` names exactly `name`.
pub open spec fn header_names(dir: Seq<u8>, cursor: int, name: Seq<u8>) -> bool {
    name_end(dir, cursor) <= dir.len() && dir.subrange(cursor + 46, name_end(dir, cursor)) == name
}

/// Where the header following the one at `dir[cursor..]` starts.
pub open spec fn next_header(dir: Seq<u8>, cursor: int) -> int {
    name_end(dir, cursor) + le16(dir, cursor + 30) + le16(dir, cursor + 32)
}

/// Walks `remaining` central-directory headers from `cursor`, looking for one whose file
/// name is exactly `name`; `Err` when a header is truncated or lacks its signature.
pub open spec fn scan_directory(dir: Seq<u8>, name: Seq<u8>, cursor: int, remaining: nat) -> Result<
    Option<ArchiveEntry>,
    (),
>
    decreases remaining,
{
    if remaining == 0 {
        Ok(None)
    } else if header_corrupt(dir, cursor) {
        Err(())
    } else if header_names(dir, cursor, name) {
        Ok(Some(header_entry(dir, cursor)))
    } else {
        scan_directory(dir, name, next_header(dir, cursor), (remaining - 1) as nat)
    }
}

/// One step of the walk over the central directory.
enum HeaderStep {
    Corrupt,
    Found(ArchiveEntry),
    Next(u64),
}

/// Examines the central-directory header at `dir[cursor..]`.
fn read_header(dir: &[u8], cursor: u64, wanted: &[u8]) -> (step: HeaderStep)
    requires
        dir@.len() <= u32::MAX,
        cursor <= dir@.len() + 46 + 3 * 65535,
    ensures
        match step {
            HeaderStep::Corrupt => header_corrupt(dir@, cursor as int),
            HeaderStep::Found(e) => !header_corrupt(dir@, cursor as int) && header_names(
                dir@,
                cursor as int,
                wanted@,
            ) && e == header_entry(dir@, cursor as int),
            HeaderStep::Next(n) => !header_corrupt(dir@, cursor as int) && !header_names(
                dir@,
                cursor as int,
                wanted@,
            ) && n == next_header(dir@, cursor as int) && n <= dir@.len() + 3 * 65535,
        },
{
    let len = dir.len() as u64;
    if cursor + 46 > len {
        return HeaderStep::Corrupt;
    }
    let c = cursor as usize;
    if u32_at(dir, c) != CENTRAL_DIRECTORY_SIGNATURE {
        return HeaderStep::Corrupt;
    }
    let name_length = u16_at(dir, c + 28) as u64;
    let extra_length = u16_at(dir, c + 30) as u64;
    let comment_length = u16_at(dir, c + 32) as u64;
    let end = cursor + 46 + name_length;
    if end <= len && name_length == wanted.len() as u64 {
        if bytes_match_at(dir, c + 46, wanted) {
            let method = u16_at(dir, c + 10);
            let compressed_size = u32_at(dir, c + 20);
            let local_header_offset = u32_at(dir, c + 42);
            return HeaderStep::Found(ArchiveEntry { method, compressed_size, local_header_offset });
        }
    }
    HeaderStep::Next(end + extra_length + comment_length)
}

/// An entry is found only at a well-formed header that names it, and it is read from there.
pub proof fn law_found_entry_is_named(dir: Seq<u8>, name: Seq<u8>, cursor: int, remaining: nat)
    ensures
        scan_directory(dir, name, cursor, remaining) matches Ok(Some(e)) ==> exists|c: int|
            c >= cursor && !header_corrupt(dir, c) && #[trigger] header_names(dir, c, name) && e
                == header_entry(dir, c),
    decreases remaining,
{
    if remaining > 0 && !header_corrupt(dir, cursor) && !header_names(dir, cursor, name) {
        law_found_entry_is_named(dir, name, next_header(dir, cursor), (remaining - 1) as nat);
        assert(next_header(dir, cursor) >= cursor);
    }
}

/// Where the `j`-th central-directory header after the one at `dir[cursor..]` starts: each
/// header is followed by the next, past its name, extra field and comment.
pub open spec fn record_start(dir: Seq<u8>, cursor: int, j: nat) -> int
    decreases j,
{
    if j == 0 {
        cursor
    } else {
        record_start(dir, next_header(dir, cursor), (j - 1) as nat)
    }
}

proof fn lemma_first_named_record(dir: Seq<u8>, name: Seq<u8>, cursor: int, n: nat, k: nat)
    requires
        k < n,
        forall|j: nat| j <= k ==> !header_corrupt(dir, #[trigger] record_start(dir, cursor, j)),
        forall|j: nat| j < k ==> !header_names(dir, #[trigger] record_start(dir, cursor, j), name),
        header_names(dir, record_start(dir, cursor, k), name),
    ensures
        scan_directory(dir, name, cursor, n) == Ok::<Option<ArchiveEntry>, ()>(
            Some(header_entry(dir, record_start(dir, cursor, k))),
        ),
    decreases k,
{
    assert(record_start(dir, cursor, 0) == cursor);
    if k > 0 {
        let next = next_header(dir, cursor);
        assert forall|j: nat| j <= (k - 1) as nat implies !header_corrupt(dir, #[trigger] record_start(dir, next, j)) by {
            assert(record_start(dir, cursor, j + 1) == record_start(dir, next, j));
        }
        assert forall|j: nat| j < (k - 1) as nat implies !header_names(dir, #[trigger] record_start(dir, next, j), name) by {
            assert(record_start(dir, cursor, j + 1) == record_start(dir, next, j));
        }
        assert(record_start(dir, cursor, k) == record_start(dir, next, (k - 1) as nat));
        lemma_first_named_record(dir, name, next, (n - 1) as nat, (k - 1) as nat);
    }
}

proof fn lemma_no_named_record(dir: Seq<u8>, name: Seq<u8>, cursor: int, n: nat)
    requires
        forall|j: nat| j < n ==> !header_corrupt(dir, #[trigger] record_start(dir, cursor, j)),
        forall|j: nat| j < n ==> !header_names(dir, #[trigger] record_start(dir, cursor, j), name),
    ensures
        scan_directory(dir, name, cursor, n) == Ok::<Option<ArchiveEntry>, ()>(None),
    decreases n,
{
    if n > 0 {
        assert(record_start(dir, cursor, 0) == cursor);
        let next = next_header(dir, cursor);
        assert forall|j: nat| j < (n - 1) as nat implies !header_corrupt(dir, #[trigger] record_start(dir, next, j))
            && !header_names(dir, record_start(dir, next, j), name) by {
            assert(record_start(dir, cursor, j + 1) == record_start(dir, next, j));
        }
        lemma_no_named_record(dir, name, next, (n - 1) as nat);
    }
}

/// Walking the `n` headers of a central directory finds the least record `k` that names
/// `name` exactly, provided the records up to it are well formed, and reads the entry from
/// that record; when all `n` records are well formed and none names `name`, the walk finds
/// nothing. `ZipArchive::entry` makes this walk over the archive's central directory.
pub proof fn law_directory_lookup(dir: Seq<u8>, name: Seq<u8>, n: nat, k: nat)
    ensures
        (k < n && (forall|j: nat| j <= k ==> !header_corrupt(dir, #[trigger] record_start(dir, 0, j)))
            && (forall|j: nat| j < k ==> !header_names(dir, #[trigger] record_start(dir, 0, j), name))
            && header_names(dir, record_start(dir, 0, k), name)) ==> scan_directory(dir, name, 0, n)
            == Ok::<Option<ArchiveEntry>, ()>(Some(header_entry(dir, record_start(dir, 0, k)))),
        ((forall|j: nat| j < n ==> !header_corrupt(dir, #[trigger] record_start(dir, 0, j)))
            && (forall|j: nat| j < n ==> !header_names(dir, #[trigger] record_start(dir, 0, j), name)))
            ==> scan_directory(dir, name, 0, n) == Ok::<Option<ArchiveEntry>, ()>(None),
{
    if k < n && (forall|j: nat| j <= k ==> !header_corrupt(dir, #[trigger] record_start(dir, 0, j)))
        && (forall|j: nat| j < k ==> !header_names(dir, #[trigger] record_start(dir, 0, j), name))
        && header_names(dir, record_start(dir, 0, k), name) {
        lemma_first_named_record(dir, name, 0, n, k);
    }
    if (forall|j: nat| j < n ==> !header_corrupt(dir, #[trigger] record_start(dir, 0, j)))
        && (forall|j: nat| j < n ==> !header_names(dir, #[trigger] record_start(dir, 0, j), name)) {
        lemma_no_named_record(dir, name, 0, n);
    }
}

proof fn lemma_header_shift(p: Seq<u8>, rest: Seq<u8>, name: Seq<u8>, c: int)
    requires
        c >= 0,
    ensures
        header_corrupt(p + rest, p.len() + c) == header_corrupt(rest, c),
        !header_corrupt(rest, c) ==> {
            &&& header_names(p + rest, p.len() + c, name) == header_names(rest, c, name)
            &&& header_entry(p + rest, p.len() + c) == header_entry(rest, c)
            &&& next_header(p + rest, p.len() + c) == p.len() + next_header(rest, c)
        },
{
    let d = p + rest;
    let k = p.len() + c;
    if k + 46 <= d.len() {
        assert forall|i: int| 0 <= i < 46 implies #[trigger] d[k + i] == rest[c + i] by {}
        assert(d[k] == rest[c] && d[k + 1] == rest[c + 1] && d[k + 2] == rest[c + 2] && d[k + 3] == rest[c + 3]);
        assert(le32(d, k) == le32(rest, c));
        if !header_corrupt(rest, c) {
            assert(d[k + 28] == rest[c + 28] && d[k + 29] == rest[c + 29]);
            assert(d[k + 30] == rest[c + 30] && d[k + 31] == rest[c + 31]);
            assert(d[k + 32] == rest[c + 32] && d[k + 33] == rest[c + 33]);
            assert(d[k + 10] == rest[c + 10] && d[k + 11] == rest[c + 11]);
            assert(d[k + 20] == rest[c + 20] && d[k + 21] == rest[c + 21] && d[k + 22] == rest[c + 22]
                && d[k + 23] == rest[c + 23]);
            assert(d[k + 42] == rest[c + 42] && d[k + 43] == rest[c + 43] && d[k + 44] == rest[c + 44]
                && d[k + 45] == rest[c + 45]);
            assert(le16(d, k + 28) == le16(rest, c + 28));
            assert(le16(d, k + 30) == le16(rest, c + 30));
            assert(le16(d, k + 32) == le16(rest, c + 32));
            assert(header_entry(d, k) == header_entry(rest, c));
            if name_end(rest, c) <= rest.len() {
                assert(d.subrange(k + 46, name_end(d, k)) =~= rest.subrange(c + 46, name_end(rest, c)));
            }
        }
    }
}

proof fn lemma_scan_shift(p: Seq<u8>, rest: Seq<u8>, name: Seq<u8>, c: int, n: nat)
    requires
        c >= 0,
    ensures
        scan_directory(p + rest, name, p.len() + c, n) == scan_directory(rest, name, c, n),
    decreases n,
{
    if n > 0 {
        lemma_header_shift(p, rest, name, c);
        if !header_corrupt(rest, c) && !header_names(rest, c, name) {
            assert(next_header(rest, c) >= c);
            lemma_scan_shift(p, rest, name, next_header(rest, c), (n - 1) as nat);
        }
    }
}

/// A central directory that starts with a well-formed header `h` (its signature, then 46
/// bytes of fields, the file name, the extra field and the comment, with the lengths recorded
/// at offsets 28, 30 and 32) followed by more headers: the walk for `name` gives `h`'s entry
/// when `h` names exactly `name`, and otherwise goes on with the headers that follow `h`,
/// past its extra field and comment.
pub proof fn law_directory_header_then_rest(h: Seq<u8>, rest: Seq<u8>, name: Seq<u8>, n: nat)
    requires
        h.len() >= 46,
        h[0] == 0x50 && h[1] == 0x4b && h[2] == 0x01 && h[3] == 0x02,
        h.len() == 46 + (h[28] + 256 * h[29]) + (h[30] + 256 * h[31]) + (h[32] + 256 * h[33]),
    ensures
        scan_directory(h + rest, name, 0, n + 1) == if h.subrange(46, 46 + h[28] + 256 * h[29]) == name {
            Ok::<Option<ArchiveEntry>, ()>(
                Some(
                    ArchiveEntry {
                        method: (h[10] + 256 * h[11]) as u16,
                        compressed_size: (h[20] + 256 * h[21] + 65536 * h[22] + 16777216 * h[23]) as u32,
                        local_header_offset: (h[42] + 256 * h[43] + 65536 * h[44] + 16777216 * h[45]) as u32,
                    },
                ),
            )
        } else {
            scan_directory(rest, name, 0, n)
        },
{
    let d = h + rest;
    assert forall|i: int| 0 <= i < h.len() implies #[trigger] d[i] == h[i] by {}
    assert(d[0] == h[0] && d[1] == h[1] && d[2] == h[2] && d[3] == h[3]);
    assert(le32(d, 0) == CENTRAL_DIRECTORY_SIGNATURE);
    assert(!header_corrupt(d, 0));
    assert(d[28] == h[28] && d[29] == h[29] && d[30] == h[30] && d[31] == h[31] && d[32] == h[32]
        && d[33] == h[33]);
    assert(d[10] == h[10] && d[11] == h[11] && d[20] == h[20] && d[21] == h[21] && d[22] == h[22]
        && d[23] == h[23]);
    assert(d[42] == h[42] && d[43] == h[43] && d[44] == h[44] && d[45] == h[45]);
    assert(d.subrange(46, name_end(d, 0)) =~= h.subrange(46, 46 + h[28] + 256 * h[29]));
    assert(next_header(d, 0) == h.len());
    lemma_scan_shift(h, rest, name, 0, n);
}

/// An entry stored after a well-formed local file header reads back as its bytes, whatever
/// the lengths of the local file name and extra field: the data starts after the 30 bytes of
/// the header, the name (length at offset 26) and the extra field (length at offset 28). A
/// deflated entry is what inflating those bytes gives.
pub proof fn law_entry_data_follows_local_header(
    path: Seq<char>,
    before: Seq<u8>,
    header: Seq<u8>,
    name: Seq<u8>,
    extra: Seq<u8>,
    payload: Seq<u8>,
    after: Seq<u8>,
    method: u16,
)
    requires
        header.len() == 30,
        header[0] == 0x50 && header[1] == 0x4b && header[2] == 0x03 && header[3] == 0x04,
        header[26] + 256 * header[27] == name.len(),
        header[28] + 256 * header[29] == extra.len(),
        before.len() <= u32::MAX,
        payload.len() <= u32::MAX,
        method == 0 || method == 8,
    ensures
        entry_data(
            path,
            before + header + name + extra + payload + after,
            ArchiveEntry {
                method,
                compressed_size: payload.len() as u32,
                local_header_offset: before.len() as u32,
            },
        ) == if method == 0 {
            Ok::<Seq<u8>, Seq<char>>(payload)
        } else {
            match inflated(payload) {
                Ok(bytes) => Ok::<Seq<u8>, Seq<char>>(bytes),
                Err(m) => Err::<Seq<u8>, Seq<char>>("failed to decompress zip entry: "@ + m),
            }
        },
{
    let d = before + header + name + extra + payload + after;
    let h = before.len() as int;
    let offset = h + 30 + name.len() + extra.len();
    assert forall|i: int| 0 <= i < 30 implies #[trigger] d[h + i] == header[i] by {}
    assert(d[h] == header[0] && d[h + 1] == header[1] && d[h + 2] == header[2] && d[h + 3] == header[3]);
    assert(d[h + 26] == header[26] && d[h + 27] == header[27] && d[h + 28] == header[28] && d[h + 29] == header[29]);
    assert(le32(d, h) == LOCAL_FILE_HEADER_SIGNATURE);
    assert(le16(d, h + 26) == name.len());
    assert(le16(d, h + 28) == extra.len());
    assert(d.subrange(offset, offset + payload.len()) =~= payload);
    assert(payload.len() == 0 ==> payload =~= Seq::<u8>::empty());
}

/// Message for an archive whose structure is broken.
pub open spec fn invalid_jar(path: Seq<char>, detail: Seq<char>) -> Seq<char> {
    "invalid jar at "@ + path + detail
}

/// Message for a read that runs past the end of the archive.
pub open spec fn short_read() -> Seq<char> {
    "I/O error: failed to fill whole buffer"@
}

/// Locating entry `name`: the first central-directory header whose name matches.
pub open spec fn lookup_entry(path: Seq<char>, data: Seq<u8>, name: Seq<u8>) -> Result<
    Option<ArchiveEntry>,
    Seq<char>,
> {
    match eocd_record(archive_tail(data)) {
        None => Err(invalid_jar(path, ": end of central directory record not found"@)),
        Some(end) => match central_directory(data, end) {
            None => Err(short_read()),
            Some(dir) => match scan_directory(dir, name, 0, end.entry_count as nat) {
                Ok(found) => Ok(found),
                Err(_) => Err(invalid_jar(path, ": corrupt central directory"@)),
            },
        },
    }
}

/// What `miniz_oxide::inflate::decompress_to_vec` gives for raw deflate data:
/// the decompressed bytes, or the text of its error.
pub uninterp spec fn inflated(compressed: Seq<u8>) -> Result<Seq<u8>, Seq<char>>;

/// `miniz_oxide::inflate::decompress_to_vec`: decompresses raw deflate data; on failure,
/// the error's `Display` text. Claimed: the outcome is `inflated` of the input.
#[verifier::external_body]
fn inflate(compressed: &[u8]) -> (res: Result<Vec<u8>, String>)
    ensures
        match res {
            Ok(v) => inflated(compressed@) == Ok::<Seq<u8>, Seq<char>>(v@),
            Err(m) => inflated(compressed@) == Err::<Seq<u8>, Seq<char>>(m@),
        },
{
    match miniz_oxide::inflate::decompress_to_vec(compressed) {
        Ok(bytes) => Ok(bytes),
        Err(error) => Err(format!("{}", error)),
    }
}

/// The contents of a deflated entry, given what inflating its data gave.
pub open spec fn decompressed(inflate_result: Result<Seq<u8>, Seq<char>>) -> Result<Seq<u8>, Seq<char>> {
    match inflate_result {
        Ok(bytes) => Ok(bytes),
        Err(m) => Err("failed to decompress zip entry: "@ + m),
    }
}

/// The contents of a deflated entry, given what inflating its data gave: the bytes, or the
/// inflater's error text behind `failed to decompress zip entry: `.
pub fn decompressed_contents(inflate_result: Result<Vec<u8>, String>) -> (res: Result<Vec<u8>, String>)
    ensures
        match inflate_result {
            Ok(v) => res == Ok::<Vec<u8>, String>(v),
            Err(e) => res matches Err(m) && m@ == "failed to decompress zip entry: "@ + e@,
        },
{
    match inflate_result {
        Ok(bytes) => Ok(bytes),
        Err(error) => {
            let mut message = String::from_str("failed to decompress zip entry: ");
            message.append(error.as_str());
            Err(message)
        },
    }
}

/// The stored bytes of an entry: `None` when they run past the archive.
pub open spec fn stored_bytes(data: Seq<u8>, offset: int, size: nat) -> Option<Seq<u8>> {
    if size == 0 {
        Some(Seq::empty())
    } else if offset + size <= data.len() {
        Some(data.subrange(offset, offset + size))
    } else {
        None
    }
}

/// Reading an entry's contents: check its local header, then store or inflate its data.
pub open spec fn entry_data(path: Seq<char>, data: Seq<u8>, entry: ArchiveEntry) -> Result<
    Seq<u8>,
    Seq<char>,
> {
    let header = entry.local_header_offset as int;
    if header + 30 > data.len() {
        Err(short_read())
    } else if le32(data, header) != LOCAL_FILE_HEADER_SIGNATURE {
        Err(invalid_jar(path, ": corrupt local file header"@))
    } else {
        let offset = header + 30 + le16(data, header + 26) + le16(data, header + 28);
        match stored_bytes(data, offset, entry.compressed_size as nat) {
            None => Err(short_read()),
            Some(raw) => if entry.method == 0 {
                Ok(raw)
            } else if entry.method == 8 {
                decompressed(inflated(raw))
            } else {
                Err("unsupported zip compression method: "@ + decimal(entry.method as nat))
            },
        }
    }
}

fn invalid_jar_message(path: &String, detail: &str) -> (res: String)
    ensures
        res@ == invalid_jar(path@, detail@),
{
    let mut message = String::from_str("invalid jar at ");
    message.append(path.as_str());
    message.append(detail);
    message
}

fn short_read_message() -> (res: String)
    ensures
        res@ == short_read(),
{
    String::from_str("I/O error: failed to fill whole buffer")
}

/// Compares `bytes[start..start + expected.len()]` with `expected`.
fn bytes_match_at(bytes: &[u8], start: usize, expected: &[u8]) -> (res: bool)
    requires
        start + expected@.len() <= bytes.len(),
    ensures
        res == (bytes@.subrange(start as int, start + expected@.len()) == expected@),
{
    let mut i: usize = 0;
    while i < expected.len()
        invariant
            start + expected@.len() <= bytes.len(),
            i <= expected@.len(),
            bytes@.subrange(start as int, start + i) == expected@.subrange(0, i as int),
        decreases expected@.len() - i,
    {
        if bytes[start + i] != expected[i] {
            assert(bytes@.subrange(start as int, start + expected@.len())[i as int] != expected@[i as int]);
            return false;
        }
        i += 1;
        assert(bytes@.subrange(start as int, start + i) =~= expected@.subrange(0, i as int));
    }
    assert(expected@.subrange(0, i as int) =~= expected@);
    true
}

/// Walks `count` central-directory headers of `directory` looking for `wanted`.
fn scan_headers(directory: &[u8], wanted: &[u8], count: usize) -> (res: Result<Option<ArchiveEntry>, ()>)
    requires
        directory@.len() <= u32::MAX,
    ensures
        res == scan_directory(directory@, wanted@, 0, count as nat),
{
    let mut cursor: u64 = 0;
    let mut seen: usize = 0;
    while seen < count
        invariant
            directory@.len() <= u32::MAX,
            seen <= count,
            cursor <= directory@.len() + 46 + 3 * 65535,
            scan_directory(directory@, wanted@, 0, count as nat) == scan_directory(
                directory@,
                wanted@,
                cursor as int,
                (count - seen) as nat,
            ),
        decreases count - seen,
    {
        match read_header(directory, cursor, wanted) {
            HeaderStep::Corrupt => {
                return Err(());
            },
            HeaderStep::Found(found) => {
                return Ok(Some(found));
            },
            HeaderStep::Next(next) => {
                cursor = next;
            },
        }
        seen += 1;
    }
    Ok(None)
}

/// Whether the end record of the archive `data` lies inside its tail, so that locating an
/// entry can read all of the record's fields.
pub fn end_record_fits_in(data: &[u8]) -> (res: bool)
    ensures
        res == end_record_fits(data@),
{
    let len = data.len();
    let start = if len <= TAIL_WINDOW { 0 } else { len - TAIL_WINDOW };
    let tail = slice_subrange(data, start, len);
    assert(tail@ =~= archive_tail(data@));
    let n: usize = if tail.len() >= 4 { tail.len() - 4 } else { 0 };
    let mut index: usize = n;
    while index > 0
        invariant
            index <= n,
            n + 4 <= tail@.len() || n == 0,
            last_signature_below(tail@, index as int) == eocd_position(tail@),
            tail@ == archive_tail(data@),
        decreases index,
    {
        let i = index - 1;
        if u32_at(tail, i) == END_OF_CENTRAL_DIRECTORY_SIGNATURE {
            assert(eocd_signature_at(tail@, i as int));
            assert(eocd_position(tail@) == Some(i as int));
            return tail.len() - i >= 20;
        }
        index = i;
    }
    true
}

impl ZipArchive {
    /// The path the archive was read from.
    pub closed spec fn spec_path(&self) -> Seq<char> {
        self.path@
    }

    /// The archive's bytes.
    pub closed spec fn spec_data(&self) -> Seq<u8> {
        self.data@
    }

    /// An archive read from `path` whose bytes are `data`.
    pub fn new(path: String, data: Vec<u8>) -> (res: Self)
        ensures
            res.spec_path() == path@,
            res.spec_data() == data@,
    {
        ZipArchive { path, data }
    }

    /// Whether the end record that `entry` would read lies inside the archive's tail.
    pub fn end_record_fits(&self) -> (res: bool)
        ensures
            res == end_record_fits(self.spec_data()),
    {
        end_record_fits_in(self.data.as_slice())
    }

    /// Locates an entry by its exact central-directory name, e.g. `META-INF/MANIFEST.MF`.
    pub fn entry(&self, name: &str) -> (res: Result<Option<ArchiveEntry>, String>)
        requires
            end_record_fits(self.spec_data()),
        ensures
            match res {
                Ok(found) => lookup_entry(self.spec_path(), self.spec_data(), name.spec_bytes())
                    == Ok::<Option<ArchiveEntry>, Seq<char>>(found),
                Err(m) => lookup_entry(self.spec_path(), self.spec_data(), name.spec_bytes())
                    == Err::<Option<ArchiveEntry>, Seq<char>>(m@),
            },
    {
        let data = self.data.as_slice();
        let len = data.len();
        let start = if len <= TAIL_WINDOW { 0 } else { len - TAIL_WINDOW };
        let tail = slice_subrange(data, start, len);
        assert(tail@ =~= archive_tail(data@));
        let end = match find_eocd(tail) {
            Some(end) => end,
            None => {
                return Err(invalid_jar_message(&self.path, ": end of central directory record not found"));
            },
        };
        let size = end.directory_size;
        let offset = end.directory_offset;
        let directory = if size == 0 {
            slice_subrange(data, 0, 0)
        } else if offset <= len && size <= len - offset {
            slice_subrange(data, offset, offset + size)
        } else {
            return Err(short_read_message());
        };
        assert(central_directory(data@, end) == Some(directory@));
        assert(directory@.len() <= u32::MAX);
        let wanted = name.as_bytes();
        match scan_headers(directory, wanted, end.entry_count) {
            Ok(found) => Ok(found),
            Err(()) => Err(invalid_jar_message(&self.path, ": corrupt central directory")),
        }
    }

    /// Reads and decompresses the contents of an entry.
    pub fn entry_contents(&self, entry: &ArchiveEntry) -> (res: Result<Vec<u8>, String>)
        ensures
            match res {
                Ok(bytes) => entry_data(self.spec_path(), self.spec_data(), *entry)
                    == Ok::<Seq<u8>, Seq<char>>(bytes@),
                Err(m) => entry_data(self.spec_path(), self.spec_data(), *entry)
                    == Err::<Seq<u8>, Seq<char>>(m@),
            },
    {
        let data = self.data.as_slice();
        let len = data.len() as u64;
        let header = entry.local_header_offset as u64;
        if header + 30 > len {
            return Err(short_read_message());
        }
        let h = header as usize;
        if u32_at(data, h) != LOCAL_FILE_HEADER_SIGNATURE {
            return Err(invalid_jar_message(&self.path, ": corrupt local file header"));
        }
        let offset = header + 30 + u16_at(data, h + 26) as u64 + u16_at(data, h + 28) as u64;
        let size = entry.compressed_size as u64;
        let raw = if size == 0 {
            Vec::new()
        } else if offset + size <= len {
            slice_to_vec(slice_subrange(data, offset as usize, (offset + size) as usize))
        } else {
            return Err(short_read_message());
        };
        assert(stored_bytes(data@, offset as int, size as nat) == Some(raw@));
        if entry.method == 0 {
            Ok(raw)
        } else if entry.method == 8 {
            decompressed_contents(inflate(raw.as_slice()))
        } else {
            let mut message = String::from_str("unsupported zip compression method: ");
            push_decimal(&mut message, entry.method as u64);
            Err(message)
        }
    }
}

} // verus!
