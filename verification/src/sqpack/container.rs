//! The block table of a file, and the extents that follow from it.
//!
//! A file starts with its header of eight bytes: the number of its blocks,
//! and the format of its blocks, 0 for blocks that are stored as they are and
//! 1 for compressed ones. Behind the header lie as many descriptors as the
//! header counts, of eight bytes each. All numbers are little-endian:
//!
//! | bytes | field                                         |
//! |-------|-----------------------------------------------|
//! | 0..4  | offset of the compressed block, from the file |
//! | 4..6  | size of the compressed block                  |
//! | 6..8  | size of the decoded block                     |

use super::error::{ErrorView, SqPackError};
use super::extent::{contiguous, max_blocks, BlockExtent};
use super::stream::{FileStream, StreamView};
use vstd::prelude::*;
use vstd::string::StringExecFns;

verus! {

/// The number of bytes of a header.
pub const HEADER_SIZE: usize = 8;

/// The number of bytes of one descriptor.
pub const DESCRIPTOR_SIZE: usize = 8;

/// How the blocks of a file are stored, and so what decodes them.
#[derive(Debug, Clone, Copy, PartialEq, Eq)]
pub enum Codec {
    /// The blocks are stored as they are.
    Stored,
    /// The blocks are compressed.
    Compressed,
}

/// What the header of a file says of its blocks.
#[derive(Debug, Clone, Copy, PartialEq, Eq)]
pub struct Header {
    /// The number of blocks of the file.
    pub block_count: u32,
    /// How the blocks are stored.
    pub codec: Codec,
}

/// The codec that a format tag stands for.
pub open spec fn codec_of(tag: int) -> Option<Codec> {
    if tag == 0 {
        Some(Codec::Stored)
    } else if tag == 1 {
        Some(Codec::Compressed)
    } else {
        None
    }
}

/// The header that eight bytes and more hold, if their format tag is known.
pub open spec fn header_of(bytes: Seq<u8>) -> Option<Header> {
    match codec_of(le_u32(bytes, 4)) {
        Some(codec) => Some(Header { block_count: le_u32(bytes, 0) as u32, codec }),
        None => None,
    }
}

/// What is reported of a header whose format tag is not known.
pub open spec fn unknown_format() -> Seq<char> {
    "header names no known block format"@
}

/// What reading a header from the front of `bytes` gives.
pub open spec fn parsed_header(bytes: Seq<u8>) -> Result<Header, ErrorView> {
    if bytes.len() < 8 {
        Err(ErrorView::IoFailure(truncated_header()))
    } else {
        match header_of(bytes) {
            Some(header) => Ok(header),
            None => Err(ErrorView::IoFailure(unknown_format())),
        }
    }
}

/// One descriptor of the block table.
#[derive(Debug, Clone, Copy, PartialEq, Eq)]
pub struct BlockInfo {
    /// Where the compressed block starts, counted from the start of the file.
    pub offset: u32,
    /// The size of the compressed block.
    pub input_size: u16,
    /// The size of the decoded block.
    pub output_size: u16,
}

/// The number that two bytes at `at` hold, the low byte first.
pub open spec fn le_u16(bytes: Seq<u8>, at: int) -> int {
    bytes[at] + 0x100 * bytes[at + 1]
}

/// The number that four bytes at `at` hold, the lowest byte first.
pub open spec fn le_u32(bytes: Seq<u8>, at: int) -> int {
    bytes[at] + 0x100 * bytes[at + 1] + 0x1_0000 * bytes[at + 2] + 0x100_0000 * bytes[at + 3]
}

/// The number that eight bytes at `at` hold, the lowest byte first.
pub open spec fn le_u64(bytes: Seq<u8>, at: int) -> int {
    le_u32(bytes, at) + 0x1_0000_0000 * le_u32(bytes, at + 4)
}

/// The descriptor with the given index in a block table.
pub open spec fn descriptor_at(bytes: Seq<u8>, index: int) -> BlockInfo {
    BlockInfo {
        offset: le_u32(bytes, 8 * index) as u32,
        input_size: le_u16(bytes, 8 * index + 4) as u16,
        output_size: le_u16(bytes, 8 * index + 6) as u16,
    }
}

/// The first `count` descriptors of a block table.
pub open spec fn descriptors(bytes: Seq<u8>, count: int) -> Seq<BlockInfo> {
    Seq::new(count as nat, |index: int| descriptor_at(bytes, index))
}

/// The sum of the decoded sizes of the first `count` blocks.
pub open spec fn decoded_size_before(blocks: Seq<BlockInfo>, count: int) -> int
    decreases count,
{
    if count <= 0 {
        0
    } else {
        decoded_size_before(blocks, count - 1) + blocks[count - 1].output_size
    }
}

/// The extent of the block with the given index: it starts where the decoded
/// blocks before it end.
pub open spec fn extent_at(blocks: Seq<BlockInfo>, index: int) -> BlockExtent {
    BlockExtent {
        compressed_offset: blocks[index].offset,
        compressed_size: blocks[index].input_size,
        decompressed_offset: decoded_size_before(blocks, index) as u64,
        decompressed_size: blocks[index].output_size,
    }
}

/// The extents of the blocks, in the order of the block table.
pub open spec fn extents_of(blocks: Seq<BlockInfo>) -> Seq<BlockExtent> {
    Seq::new(blocks.len(), |index: int| extent_at(blocks, index))
}

/// What is reported of a header that is shorter than eight bytes.
pub open spec fn truncated_header() -> Seq<char> {
    "header ends before its block format"@
}

/// What is reported of a block table that is shorter than its header says.
pub open spec fn truncated_table() -> Seq<char> {
    "block table ends before its last descriptor"@
}

/// The decoded sizes of no more than `max_blocks` blocks add up to less than
/// 2^48.
pub proof fn lemma_decoded_size_bound(blocks: Seq<BlockInfo>, count: int)
    requires
        0 <= count <= blocks.len(),
    ensures
        0 <= decoded_size_before(blocks, count) <= count * 0xffff,
    decreases count,
{
    if count > 0 {
        lemma_decoded_size_bound(blocks, count - 1);
    }
}

/// The extents of a block table tile the file: the first starts at 0, and
/// each of the others where the one before it ends.
pub proof fn lemma_extents_contiguous(blocks: Seq<BlockInfo>)
    requires
        blocks.len() <= max_blocks(),
    ensures
        contiguous(extents_of(blocks)),
        extents_of(blocks).len() == blocks.len(),
        forall|i: int|
            0 <= i < blocks.len() ==> (#[trigger] extents_of(blocks)[i]).decompressed_offset
                == decoded_size_before(blocks, i),
{
    let extents = extents_of(blocks);
    assert forall|i: int| 0 <= i < blocks.len() implies (#[trigger] extents[i]).decompressed_offset
        == decoded_size_before(blocks, i) by {
        lemma_decoded_size_bound(blocks, i);
    }
    assert forall|i: int| 0 <= i < extents.len() - 1 implies #[trigger] extents[i
        + 1].decompressed_offset == extents[i].end() by {
        lemma_decoded_size_bound(blocks, i);
        lemma_decoded_size_bound(blocks, i + 1);
    }
}

/// The offsets of the extents never decrease, and they increase from one
/// block to a later one where the blocks between them are not all empty.
pub proof fn lemma_offsets_increase(blocks: Seq<BlockInfo>, i: int, j: int)
    requires
        blocks.len() <= max_blocks(),
        0 <= i <= j < blocks.len(),
    ensures
        extents_of(blocks)[i].decompressed_offset <= extents_of(blocks)[j].decompressed_offset,
        (exists|k: int| i <= k < j && (#[trigger] blocks[k]).output_size > 0) ==> extents_of(
            blocks,
        )[i].decompressed_offset < extents_of(blocks)[j].decompressed_offset,
    decreases j - i,
{
    lemma_extents_contiguous(blocks);
    if i < j {
        lemma_offsets_increase(blocks, i, j - 1);
        lemma_decoded_size_bound(blocks, j);
        lemma_decoded_size_bound(blocks, j - 1);
        if exists|k: int| i <= k < j && (#[trigger] blocks[k]).output_size > 0 {
            let k = choose|k: int| i <= k < j && (#[trigger] blocks[k]).output_size > 0;
            if k < j - 1 {
                assert(i <= k < j - 1 && blocks[k].output_size > 0);
            }
        }
    }
}

/// Reads two bytes as a little-endian number.
pub fn read_u16_le(bytes: &[u8], at: usize) -> (value: u16)
    requires
        at + 2 <= bytes.len(),
    ensures
        value == le_u16(bytes@, at as int),
{
    bytes[at] as u16 + 0x100 * (bytes[at + 1] as u16)
}

/// Reads four bytes as a little-endian number.
pub fn read_u32_le(bytes: &[u8], at: usize) -> (value: u32)
    requires
        at + 4 <= bytes.len(),
    ensures
        value == le_u32(bytes@, at as int),
{
    bytes[at] as u32 + 0x100 * (bytes[at + 1] as u32) + 0x1_0000 * (bytes[at + 2] as u32)
        + 0x100_0000 * (bytes[at + 3] as u32)
}

/// Reads eight bytes as a little-endian number.
pub fn read_u64_le(bytes: &[u8], at: usize) -> (value: u64)
    requires
        at + 8 <= bytes.len(),
    ensures
        value == le_u64(bytes@, at as int),
{
    read_u32_le(bytes, at) as u64 + 0x1_0000_0000 * (read_u32_le(bytes, at + 4) as u64)
}

impl Codec {
    /// Reads a format tag.
    pub fn from_tag(tag: u32) -> (codec: Option<Codec>)
        ensures
            codec == codec_of(tag as int),
    {
        if tag == 0 {
            Some(Codec::Stored)
        } else if tag == 1 {
            Some(Codec::Compressed)
        } else {
            None
        }
    }
}

impl Header {
    /// Reads the header of a file from the front of `bytes`. Fails with
    /// `IoFailure` where `bytes` are fewer than the header has, and where the
    /// format tag is not a known one.
    pub fn parse(bytes: &[u8]) -> (r: Result<Header, SqPackError>)
        ensures
            match parsed_header(bytes@) {
                Ok(header) => r == Ok::<Header, SqPackError>(header),
                Err(error) => r is Err && r->Err_0@ == error,
            },
    {
        if bytes.len() < 8 {
            return Err(
                SqPackError::IoFailure(String::from_str("header ends before its block format")),
            );
        }
        match Codec::from_tag(read_u32_le(bytes, 4)) {
            Some(codec) => Ok(Header { block_count: read_u32_le(bytes, 0), codec }),
            None => Err(
                SqPackError::IoFailure(String::from_str("header names no known block format")),
            ),
        }
    }
}

/// Reads the block table of a file: `count` descriptors from the front of
/// `bytes`. Fails with `IoFailure` where `bytes` ends before the last of them.
pub fn parse_block_table(bytes: &[u8], count: u32) -> (r: Result<Vec<BlockInfo>, SqPackError>)
    ensures
        r is Ok <==> 8 * count <= bytes@.len(),
        r matches Ok(blocks) ==> blocks@ == descriptors(bytes@, count as int),
        r matches Err(error) ==> error@ == ErrorView::IoFailure(truncated_table()),
{
    if (bytes.len() as u64) < 8 * (count as u64) {
        return Err(
            SqPackError::IoFailure(String::from_str("block table ends before its last descriptor")),
        );
    }
    let mut blocks: Vec<BlockInfo> = Vec::new();
    let mut index: usize = 0;
    while index < count as usize
        invariant
            index <= count,
            8 * count <= bytes.len(),
            blocks@ == descriptors(bytes@, index as int),
        decreases count - index,
    {
        let at: usize = 8 * index;
        let info = BlockInfo {
            offset: read_u32_le(bytes, at),
            input_size: read_u16_le(bytes, at + 4),
            output_size: read_u16_le(bytes, at + 6),
        };
        blocks.push(info);
        index += 1;
        assert(blocks@ =~= descriptors(bytes@, index as int));
    }
    Ok(blocks)
}

/// Derives the extents of a file from its block table, in one pass: each
/// block starts, decompressed, where the blocks before it end.
pub fn block_extents(blocks: &Vec<BlockInfo>) -> (extents: Vec<BlockExtent>)
    requires
        blocks@.len() <= max_blocks(),
    ensures
        extents@ == extents_of(blocks@),
        contiguous(extents@),
        extents@.len() == blocks@.len(),
{
    let mut extents: Vec<BlockExtent> = Vec::new();
    let mut next: u64 = 0;
    let mut index: usize = 0;
    while index < blocks.len()
        invariant
            index <= blocks@.len(),
            blocks@.len() <= max_blocks(),
            next == decoded_size_before(blocks@, index as int),
            extents@ == extents_of(blocks@).take(index as int),
        decreases blocks.len() - index,
    {
        let info = blocks[index];
        proof {
            lemma_decoded_size_bound(blocks@, index as int);
            lemma_decoded_size_bound(blocks@, index + 1);
        }
        extents.push(
            BlockExtent {
                compressed_offset: info.offset,
                compressed_size: info.input_size,
                decompressed_offset: next,
                decompressed_size: info.output_size,
            },
        );
        next = next + info.output_size as u64;
        index += 1;
        assert(extents@ =~= extents_of(blocks@).take(index as int));
    }
    proof {
        lemma_extents_contiguous(blocks@);
        assert(extents_of(blocks@).take(blocks@.len() as int) =~= extents_of(blocks@));
    }
    extents
}

/// Opens the file whose header is `header` and which lies at `offset` in its
/// container. `bytes` is what follows the header: the block table, read in
/// full before anything else. The stream stands at the first byte of the
/// file and holds no block.
pub fn read(bytes: &[u8], offset: u32, header: Header) -> (r: Result<FileStream, SqPackError>)
    ensures
        r is Ok <==> 8 * header.block_count <= bytes@.len(),
        r matches Ok(stream) ==> stream@ == StreamView::fresh(
            offset,
            header.codec,
            extents_of(descriptors(bytes@, header.block_count as int)),
        ) && stream@.wf(),
        r matches Err(error) ==> error@ == ErrorView::IoFailure(truncated_table()),
{
    match parse_block_table(bytes, header.block_count) {
        Err(error) => Err(error),
        Ok(blocks) => Ok(FileStream::new(offset, header.codec, block_extents(&blocks))),
    }
}

} // verus!
