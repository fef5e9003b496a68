//! Where the blocks of a file lie, compressed and decompressed.

use vstd::prelude::*;

verus! {

/// The place of one block: where its compressed bytes start within the file's
/// part of the container, and which range of the decompressed file it holds.
#[derive(Debug, Clone, Copy, PartialEq, Eq)]
pub struct BlockExtent {
    pub compressed_offset: u32,
    pub compressed_size: u16,
    pub decompressed_offset: u64,
    pub decompressed_size: u16,
}

impl BlockExtent {
    /// The first decompressed offset behind the block.
    pub open spec fn end(self) -> int {
        self.decompressed_offset + self.decompressed_size
    }

    /// Whether the block holds the byte at `position` of the decompressed file.
    pub open spec fn contains(self, position: int) -> bool {
        self.decompressed_offset <= position < self.end()
    }
}

/// The largest number of blocks that a block table can announce.
pub open spec fn max_blocks() -> int {
    0xffff_ffff
}

/// Whether the extents tile the decompressed file: the first starts at 0 and
/// each of the others where the one before it ends.
pub open spec fn contiguous(extents: Seq<BlockExtent>) -> bool {
    &&& extents.len() > 0 ==> extents[0].decompressed_offset == 0
    &&& forall|i: int|
        0 <= i < extents.len() - 1 ==> #[trigger] extents[i + 1].decompressed_offset
            == extents[i].end()
}

/// The length of the decompressed file: the end of the last extent, or 0
/// where there is none.
pub open spec fn total_size(extents: Seq<BlockExtent>) -> int {
    if extents.len() == 0 {
        0
    } else {
        extents.last().end()
    }
}

/// The first extent from index `from` on that holds `position`, if any.
pub open spec fn first_containing_from(extents: Seq<BlockExtent>, position: int, from: int) -> Option<int>
    decreases extents.len() - from,
{
    if from < 0 || from >= extents.len() {
        None
    } else if extents[from].contains(position) {
        Some(from)
    } else {
        first_containing_from(extents, position, from + 1)
    }
}

/// The first extent that holds `position`, if any.
pub open spec fn first_containing(extents: Seq<BlockExtent>, position: int) -> Option<int> {
    first_containing_from(extents, position, 0)
}

/// What `first_containing_from` finds is the least index from `from` on whose
/// extent holds the position; it finds nothing only where no such extent does.
pub proof fn lemma_first_containing(extents: Seq<BlockExtent>, position: int, from: int)
    requires
        0 <= from,
    ensures
        match first_containing_from(extents, position, from) {
            Some(i) => from <= i < extents.len() && extents[i].contains(position) && forall|j: int|
                from <= j < i ==> !(#[trigger] extents[j]).contains(position),
            None => forall|j: int|
                from <= j < extents.len() ==> !(#[trigger] extents[j]).contains(position),
        },
    decreases extents.len() - from,
{
    if from < extents.len() && !extents[from].contains(position) {
        lemma_first_containing(extents, position, from + 1);
    }
}

/// In a contiguous run of extents each one starts at or behind the end of
/// every earlier one, and none ends beyond 65535 bytes per extent before it.
pub proof fn lemma_contiguous_bounds(extents: Seq<BlockExtent>, i: int, j: int)
    requires
        contiguous(extents),
        0 <= i <= j < extents.len(),
    ensures
        extents[i].decompressed_offset <= extents[j].decompressed_offset,
        i < j ==> extents[i].end() <= extents[j].decompressed_offset,
        extents[j].end() <= (j + 1) * 0xffff,
    decreases j,
{
    if j > 0 {
        if i < j {
            lemma_contiguous_bounds(extents, i, j - 1);
        } else {
            lemma_contiguous_bounds(extents, j - 1, j - 1);
        }
        assert(extents[(j - 1) + 1].decompressed_offset == extents[j - 1].end());
    }
}

} // verus!
