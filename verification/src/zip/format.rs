use vstd::prelude::*;

verus! {

/// Signature of the end-of-central-directory record.
pub const END_OF_CENTRAL_DIRECTORY_SIGNATURE: u32 = 0x0605_4b50;

/// Signature of a central-directory file header.
pub const CENTRAL_DIRECTORY_SIGNATURE: u32 = 0x0201_4b50;

/// Signature of a local file header.
pub const LOCAL_FILE_HEADER_SIGNATURE: u32 = 0x0403_4b50;

/// Little-endian 16-bit value stored at `b[i..i + 2]`.
pub open spec fn le16(b: Seq<u8>, i: int) -> nat {
    b[i] as nat + 256 * (b[i + 1] as nat)
}

/// Little-endian 32-bit value stored at `b[i..i + 4]`.
pub open spec fn le32(b: Seq<u8>, i: int) -> nat {
    b[i] as nat + 256 * (b[i + 1] as nat) + 65536 * (b[i + 2] as nat) + 16777216 * (b[i + 3] as nat)
}

/// Reads the little-endian `u16` at `offset`.
pub fn u16_at(bytes: &[u8], offset: usize) -> (v: u16)
    requires
        offset + 2 <= bytes@.len(),
    ensures
        v as nat == le16(bytes@, offset as int),
{
    bytes[offset] as u16 + (bytes[offset + 1] as u16) * 256
}

/// Reads the little-endian `u32` at `offset`.
pub fn u32_at(bytes: &[u8], offset: usize) -> (v: u32)
    requires
        offset + 4 <= bytes@.len(),
    ensures
        v as nat == le32(bytes@, offset as int),
{
    bytes[offset] as u32 + (bytes[offset + 1] as u32) * 256 + (bytes[offset + 2] as u32) * 65536
        + (bytes[offset + 3] as u32) * 16777216
}

/// The fields of the end-of-central-directory record that locating an entry needs.
pub struct EndOfCentralDirectory {
    pub entry_count: usize,
    pub directory_size: usize,
    pub directory_offset: usize,
}

/// An end-of-central-directory signature starts at `tail[i]`.
pub open spec fn eocd_signature_at(tail: Seq<u8>, i: int) -> bool {
    0 <= i && i + 4 <= tail.len() && le32(tail, i) == END_OF_CENTRAL_DIRECTORY_SIGNATURE
}

/// The greatest `i < n` at which a signature starts, if any.
pub open spec fn last_signature_below(tail: Seq<u8>, n: int) -> Option<int>
    decreases n,
{
    if n <= 0 {
        None
    } else if eocd_signature_at(tail, n - 1) {
        Some(n - 1)
    } else {
        last_signature_below(tail, n - 1)
    }
}

/// Where the end-of-central-directory record starts: the last signature among the
/// positions `0 .. tail.len() - 4` (a signature in the final four bytes is not considered).
pub open spec fn eocd_position(tail: Seq<u8>) -> Option<int> {
    last_signature_below(tail, tail.len() - 4)
}

/// The record found by `eocd_position` holds its three fields inside `tail`.
pub open spec fn eocd_fits(tail: Seq<u8>) -> bool {
    match eocd_position(tail) {
        Some(p) => p + 20 <= tail.len(),
        None => true,
    }
}

/// The end-of-central-directory record of `tail`, read at `eocd_position`.
pub open spec fn eocd_record(tail: Seq<u8>) -> Option<EndOfCentralDirectory> {
    match eocd_position(tail) {
        Some(p) => Some(
            EndOfCentralDirectory {
                entry_count: le16(tail, p + 10) as usize,
                directory_size: le32(tail, p + 12) as usize,
                directory_offset: le32(tail, p + 16) as usize,
            },
        ),
        None => None,
    }
}

proof fn lemma_last_signature_bounds(tail: Seq<u8>, n: int)
    ensures
        last_signature_below(tail, n) matches Some(p) ==> 0 <= p < n && eocd_signature_at(tail, p),
    decreases n,
{
    if n > 0 && !eocd_signature_at(tail, n - 1) {
        lemma_last_signature_bounds(tail, n - 1);
    }
}

/// Scans `tail` backwards for the end-of-central-directory record.
pub fn find_eocd(tail: &[u8]) -> (res: Option<EndOfCentralDirectory>)
    requires
        eocd_fits(tail@),
    ensures
        res == eocd_record(tail@),
{
    let n: usize = if tail.len() >= 4 { tail.len() - 4 } else { 0 };
    let mut index: usize = n;
    assert(last_signature_below(tail@, n as int) == eocd_position(tail@));
    while index > 0
        invariant
            index <= n,
            n + 4 <= tail@.len() || n == 0,
            last_signature_below(tail@, index as int) == eocd_position(tail@),
            eocd_fits(tail@),
        decreases index,
    {
        let i = index - 1;
        if u32_at(tail, i) == END_OF_CENTRAL_DIRECTORY_SIGNATURE {
            assert(eocd_signature_at(tail@, i as int));
            assert(eocd_position(tail@) == Some(i as int));
            assert(i + 20 <= tail.len());
            let entry_count = u16_at(tail, i + 10);
            let directory_size = u32_at(tail, i + 12);
            let directory_offset = u32_at(tail, i + 16);
            return Some(
                EndOfCentralDirectory {
                    entry_count: entry_count as usize,
                    directory_size: directory_size as usize,
                    directory_offset: directory_offset as usize,
                },
            );
        }
        index = i;
    }
    None
}

} // verus!
