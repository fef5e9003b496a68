//! The index of a category: which container holds a file, and where.
//!
//! An index file starts with the number of its entries, in four bytes. The
//! entries follow, of sixteen bytes each, all numbers little-endian:
//!
//! | bytes | field                              |
//! |-------|------------------------------------|
//! | 0..8  | content key of the path            |
//! | 8..12 | number of the container            |
//! | 12..16| offset of the file in the container|
//!
//! The content key of a path is the 64-bit FNV-1a hash of its bytes. Of two
//! entries with one key the first counts.

use super::container::{le_u32, le_u64, read_u32_le, read_u64_le};
use super::error::SqPackError;
use vstd::prelude::*;
use vstd::string::StringExecFns;

verus! {

/// Where a file lies: the number of its container, and its offset in it.
#[derive(Debug, Clone, Copy, PartialEq, Eq)]
pub struct Location {
    pub container_id: u32,
    pub offset: u32,
}

/// One entry of an index.
#[derive(Debug, Clone, Copy, PartialEq, Eq)]
pub struct IndexEntry {
    pub key: u64,
    pub container_id: u32,
    pub offset: u32,
}

impl IndexEntry {
    /// The place that the entry gives.
    pub open spec fn location(self) -> Location {
        Location { container_id: self.container_id, offset: self.offset }
    }
}

/// The entries of one index file, in the order of the file.
#[derive(Debug, Clone, PartialEq, Eq)]
pub struct IndexTable {
    pub entries: Vec<IndexEntry>,
}

impl View for IndexTable {
    type V = Seq<IndexEntry>;

    open spec fn view(&self) -> Seq<IndexEntry> {
        self.entries@
    }
}

/// The number of entries that an index file announces.
pub open spec fn entry_count(bytes: Seq<u8>) -> int {
    le_u32(bytes, 0)
}

/// Whether an index file is as long as its header says.
pub open spec fn index_complete(bytes: Seq<u8>) -> bool {
    bytes.len() >= 4 && bytes.len() >= 4 + 16 * entry_count(bytes)
}

/// The entry with the given index in an index file.
pub open spec fn entry_at(bytes: Seq<u8>, index: int) -> IndexEntry {
    IndexEntry {
        key: le_u64(bytes, 4 + 16 * index) as u64,
        container_id: le_u32(bytes, 4 + 16 * index + 8) as u32,
        offset: le_u32(bytes, 4 + 16 * index + 12) as u32,
    }
}

/// The first `count` entries of an index file.
pub open spec fn entries_of(bytes: Seq<u8>, count: int) -> Seq<IndexEntry> {
    Seq::new(count as nat, |index: int| entry_at(bytes, index))
}

/// What is reported of an index file that is shorter than its header says.
pub open spec fn truncated_index() -> Seq<char> {
    "index ends before its last entry"@
}

/// The place that the first entry with the given key, from index `from` on,
/// gives.
pub open spec fn find_from(entries: Seq<IndexEntry>, key: u64, from: int) -> Option<Location>
    decreases entries.len() - from,
{
    if from < 0 || from >= entries.len() {
        None
    } else if entries[from].key == key {
        Some(entries[from].location())
    } else {
        find_from(entries, key, from + 1)
    }
}

/// The place that an index gives for a key.
pub open spec fn find(entries: Seq<IndexEntry>, key: u64) -> Option<Location> {
    find_from(entries, key, 0)
}

/// The FNV-1a hash of the first `count` bytes.
pub open spec fn hash_bytes(bytes: Seq<u8>, count: int) -> u64
    decreases count,
{
    if count <= 0 {
        0xcbf2_9ce4_8422_2325
    } else {
        (hash_bytes(bytes, count - 1) ^ (bytes[count - 1] as u64)).wrapping_mul(0x100_0000_01b3)
    }
}

/// The key under which an index holds a path.
pub open spec fn key_of(path: Seq<char>) -> u64 {
    hash_bytes(vstd::utf8::encode_utf8(path), vstd::utf8::encode_utf8(path).len() as int)
}

/// Computes the key under which an index holds a path.
pub fn content_key(path: &str) -> (key: u64)
    ensures
        key == key_of(path@),
{
    let bytes = path.as_bytes();
    let mut key: u64 = 0xcbf2_9ce4_8422_2325;
    let mut i: usize = 0;
    while i < bytes.len()
        invariant
            i <= bytes.len(),
            bytes@ == vstd::utf8::encode_utf8(path@),
            key == hash_bytes(bytes@, i as int),
        decreases bytes.len() - i,
    {
        key = (key ^ (bytes[i] as u64)).wrapping_mul(0x100_0000_01b3);
        i += 1;
    }
    key
}

impl IndexTable {
    /// Reads an index file. Fails with `IoFailure` where the file ends before
    /// the last entry that its header announces.
    pub fn parse(bytes: &[u8]) -> (r: Result<IndexTable, SqPackError>)
        ensures
            r is Ok <==> index_complete(bytes@),
            r matches Ok(table) ==> table@ == entries_of(bytes@, entry_count(bytes@)),
            r matches Err(error) ==> error@ == super::error::ErrorView::IoFailure(
                truncated_index(),
            ),
    {
        if bytes.len() < 4 {
            return Err(SqPackError::IoFailure(String::from_str("index ends before its last entry")));
        }
        let count: u32 = read_u32_le(bytes, 0);
        if ((bytes.len() - 4) as u64) < 16 * (count as u64) {
            return Err(SqPackError::IoFailure(String::from_str("index ends before its last entry")));
        }
        let mut entries: Vec<IndexEntry> = Vec::new();
        let mut index: usize = 0;
        while index < count as usize
            invariant
                index <= count,
                4 + 16 * count <= bytes.len(),
                entries@ == entries_of(bytes@, index as int),
            decreases count - index,
        {
            let at: usize = 4 + 16 * index;
            entries.push(
                IndexEntry {
                    key: read_u64_le(bytes, at),
                    container_id: read_u32_le(bytes, at + 8),
                    offset: read_u32_le(bytes, at + 12),
                },
            );
            index += 1;
            assert(entries@ =~= entries_of(bytes@, index as int));
        }
        Ok(IndexTable { entries })
    }

    /// Looks up a key: the place that the first entry with the key gives.
    pub fn lookup(&self, key: u64) -> (location: Option<Location>)
        ensures
            location == find(self@, key),
    {
        let mut i: usize = 0;
        while i < self.entries.len()
            invariant
                i <= self.entries.len(),
                find(self@, key) == find_from(self@, key, i as int),
            decreases self.entries.len() - i,
        {
            let entry = self.entries[i];
            if entry.key == key {
                return Some(Location { container_id: entry.container_id, offset: entry.offset });
            }
            i += 1;
        }
        None
    }

    /// Looks up a path by its content key.
    pub fn locate(&self, path: &str) -> (location: Option<Location>)
        ensures
            location == find(self@, key_of(path@)),
    {
        self.lookup(content_key(path))
    }
}

} // verus!
