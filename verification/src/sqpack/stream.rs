//! A seekable stream over the decompressed bytes of one file.
//!
//! The stream never touches the container itself. `read` either copies bytes
//! out of the one decoded block that it holds, or says which block has to be
//! fetched and decoded; the caller does that and hands the block over with
//! `supply_block`, then reads again.

use super::container::Codec;
use super::error::SqPackError;
use super::extent::{
    contiguous, first_containing, lemma_contiguous_bounds, lemma_first_containing, max_blocks,
    total_size, BlockExtent,
};
use vstd::prelude::*;

verus! {

/// Where a seek is measured from.
#[derive(Debug, Clone, Copy, PartialEq, Eq)]
pub enum SeekFrom {
    /// From the first byte of the file.
    Start(u64),
    /// From the current position.
    Current(i64),
    /// From the end of the last block.
    End(i64),
}

/// The decoded block that a stream holds: none, or that of one extent.
#[derive(Debug, Clone, PartialEq, Eq)]
pub enum BlockCache {
    Empty,
    Loaded { index: usize, data: Vec<u8> },
}

/// A block that has to be fetched from the container and decoded.
#[derive(Debug, Clone, Copy, PartialEq, Eq)]
pub struct BlockRequest {
    /// How the block is stored, and so what decodes it.
    pub codec: Codec,
    /// Where the compressed block starts in the container.
    pub offset: u64,
    /// The size that the block table gives for the compressed block.
    pub compressed_size: u16,
    /// The number of bytes that the decoded block must have.
    pub decompressed_size: u16,
}

/// What one call of `read` did.
#[derive(Debug, Clone, Copy, PartialEq, Eq)]
pub enum ReadStep {
    /// That many bytes were copied to the front of the buffer; none at the
    /// end of the file.
    Read(usize),
    /// Nothing was copied: the block of the current position is not decoded
    /// yet.
    Fetch(BlockRequest),
}

/// The decoded block that a stream holds, as contracts see it.
pub struct HeldBlock {
    /// The index of the extent that the block is of.
    pub index: int,
    /// The decoded bytes.
    pub data: Seq<u8>,
}

/// The state of a stream as contracts see it.
pub struct StreamView {
    /// Where the file starts in the container.
    pub dat_offset: u32,
    /// How the blocks of the file are stored.
    pub codec: Codec,
    /// The blocks of the file.
    pub extents: Seq<BlockExtent>,
    /// The offset of the next byte to read, in the decompressed file.
    pub position: int,
    /// The index of the extent that the stream is at.
    pub active: int,
    /// The decoded block that is held, if one is: that of the active extent.
    pub cache: Option<HeldBlock>,
}

/// What `read` does to a stream, what it returns and which bytes it delivers.
pub struct ReadOutcome {
    pub stream: StreamView,
    pub result: Result<ReadStep, SqPackError>,
    pub bytes: Seq<u8>,
}

impl StreamView {
    /// Whether the state is one that a stream can be in.
    pub open spec fn wf(self) -> bool {
        &&& contiguous(self.extents)
        &&& self.extents.len() <= max_blocks()
        &&& 0 <= self.position <= u64::MAX
        &&& 0 <= self.active
        &&& self.extents.len() == 0 ==> self.active == 0
        &&& self.extents.len() > 0 ==> self.active < self.extents.len()
        &&& self.cache matches Some(held) ==> self.extents.len() > 0 && held.index == self.active
            && held.data.len() == self.extents[self.active].decompressed_size
    }

    /// The state of a stream that has just been opened.
    pub open spec fn fresh(dat_offset: u32, codec: Codec, extents: Seq<BlockExtent>) -> StreamView {
        StreamView { dat_offset, codec, extents, position: 0, active: 0, cache: None }
    }

    /// Whether the stream stands behind the last byte of its last extent,
    /// having arrived there through that extent. A file without extents ends
    /// at position 0.
    pub open spec fn at_eof(self) -> bool {
        if self.extents.len() == 0 {
            self.position == 0
        } else {
            self.active == self.extents.len() - 1 && self.position == self.extents.last().end()
        }
    }

    /// Whether the active extent holds the position.
    pub open spec fn in_active(self) -> bool {
        self.extents.len() > 0 && self.extents[self.active].contains(self.position)
    }

    /// The extent to read from: the active one where it holds the position,
    /// else the first one that does.
    pub open spec fn target(self) -> Option<int> {
        if self.in_active() {
            Some(self.active)
        } else {
            first_containing(self.extents, self.position)
        }
    }

    /// The request for the block of extent `index`.
    pub open spec fn request(self, index: int) -> BlockRequest {
        BlockRequest {
            codec: self.codec,
            offset: (self.dat_offset + self.extents[index].compressed_offset) as u64,
            compressed_size: self.extents[index].compressed_size,
            decompressed_size: self.extents[index].decompressed_size,
        }
    }

    /// One call of `read` with a buffer of `capacity` bytes.
    ///
    /// At the end of the file nothing is read. A position that no extent
    /// holds is an error, and the state stays as it is. Where the block of the
    /// position is held, as many of its bytes as fit are delivered, from the
    /// position on. Otherwise the stream moves to the extent of the position,
    /// drops the block it held and asks for the new one.
    pub open spec fn read(self, capacity: int) -> ReadOutcome {
        if self.at_eof() {
            ReadOutcome { stream: self, result: Ok(ReadStep::Read(0)), bytes: Seq::empty() }
        } else {
            match self.target() {
                None => ReadOutcome {
                    stream: self,
                    result: Err(SqPackError::OutOfRange { position: self.position as u64 }),
                    bytes: Seq::empty(),
                },
                Some(index) => {
                    if self.in_active() && self.cache is Some {
                        let start = self.position - self.extents[index].decompressed_offset;
                        let rest = self.extents[index].end() - self.position;
                        let count = if capacity < rest {
                            capacity
                        } else {
                            rest
                        };
                        ReadOutcome {
                            stream: StreamView { position: self.position + count, ..self },
                            result: Ok(ReadStep::Read(count as usize)),
                            bytes: self.cache->0.data.subrange(start, start + count),
                        }
                    } else {
                        ReadOutcome {
                            stream: StreamView {
                                active: index,
                                cache: if self.in_active() {
                                    self.cache
                                } else {
                                    None
                                },
                                ..self
                            },
                            result: Ok(ReadStep::Fetch(self.request(index))),
                            bytes: Seq::empty(),
                        }
                    }
                },
            }
        }
    }

    /// Whether `decoded` can be the block of the active extent.
    pub open spec fn accepts(self, decoded: Seq<u8>) -> bool {
        self.extents.len() > 0 && decoded.len() == self.extents[self.active].decompressed_size
    }

    /// The size that a block handed to the stream must have.
    pub open spec fn expected_size(self) -> int {
        if self.extents.len() > 0 {
            self.extents[self.active].decompressed_size as int
        } else {
            0
        }
    }

    /// The stream after it has been handed `decoded` as the block of the active
    /// extent: it holds the block if the size is right, and is unchanged if
    /// not.
    pub open spec fn supply(self, decoded: Seq<u8>) -> StreamView {
        if self.accepts(decoded) {
            StreamView { cache: Some(HeldBlock { index: self.active, data: decoded }), ..self }
        } else {
            self
        }
    }

    /// The position that a seek asks for.
    pub open spec fn seek_target(self, from: SeekFrom) -> int {
        match from {
            SeekFrom::Start(n) => n as int,
            SeekFrom::Current(d) => self.position + d,
            SeekFrom::End(d) => total_size(self.extents) + d,
        }
    }

    /// Whether a seek is carried out. From the start every offset is taken as
    /// it is; a relative seek must end at a position from 0 to the largest
    /// signed 64-bit number.
    pub open spec fn seek_allowed(self, from: SeekFrom) -> bool {
        from is Start || 0 <= self.seek_target(from) <= i64::MAX
    }

    /// The stream after a seek: at the target where the seek is allowed,
    /// unchanged where it is not. The block it holds stays.
    pub open spec fn seek(self, from: SeekFrom) -> StreamView {
        if self.seek_allowed(from) {
            StreamView { position: self.seek_target(from), ..self }
        } else {
            self
        }
    }
}

/// A seekable stream over the decompressed bytes of one file of a container.
///
/// It holds the decoded bytes of at most one block, that of the extent it is
/// at.
#[derive(Debug, PartialEq, Eq)]
pub struct FileStream {
    /// Offset of the file within the container.
    dat_offset: u32,
    /// How the blocks of the file are stored.
    codec: Codec,
    /// The blocks of the file.
    metadata: Vec<BlockExtent>,
    /// Position within the decompressed file.
    position: u64,
    /// Index of the extent being read.
    current_block: usize,
    /// The decoded block of that extent, if it is held.
    block_data: BlockCache,
}

impl View for FileStream {
    type V = StreamView;

    closed spec fn view(&self) -> StreamView {
        StreamView {
            dat_offset: self.dat_offset,
            codec: self.codec,
            extents: self.metadata@,
            position: self.position as int,
            active: self.current_block as int,
            cache: match self.block_data {
                BlockCache::Empty => None,
                BlockCache::Loaded { index, data } => Some(
                    HeldBlock { index: index as int, data: data@ },
                ),
            },
        }
    }
}

impl FileStream {
    #[verifier::type_invariant]
    closed spec fn inv(&self) -> bool {
        self@.wf()
    }

    /// A stream at the start of a file with the given blocks, which lies at
    /// `dat_offset` in its container and whose blocks `codec` decodes.
    pub fn new(dat_offset: u32, codec: Codec, metadata: Vec<BlockExtent>) -> (stream: FileStream)
        requires
            contiguous(metadata@),
            metadata@.len() <= max_blocks(),
        ensures
            stream@ == StreamView::fresh(dat_offset, codec, metadata@),
    {
        FileStream {
            dat_offset,
            codec,
            metadata,
            position: 0,
            current_block: 0,
            block_data: BlockCache::Empty,
        }
    }

    /// The offset of the next byte to read.
    pub fn position(&self) -> (position: u64)
        ensures
            position == self@.position,
            self@.wf(),
    {
        proof {
            use_type_invariant(self);
        }
        self.position
    }

    /// How the blocks of the file are stored.
    pub fn codec(&self) -> (codec: Codec)
        ensures
            codec == self@.codec,
    {
        self.codec
    }

    /// The blocks of the file.
    pub fn extents(&self) -> (extents: &Vec<BlockExtent>)
        ensures
            extents@ == self@.extents,
            self@.wf(),
    {
        proof {
            use_type_invariant(self);
        }
        &self.metadata
    }

    /// The index of the extent whose decoded block the stream holds, if it
    /// holds one.
    pub fn cached_block(&self) -> (index: Option<usize>)
        ensures
            index is Some <==> self@.cache is Some,
            index is Some ==> index->0 == self@.cache->0.index == self@.active,
    {
        proof {
            use_type_invariant(self);
        }
        match &self.block_data {
            BlockCache::Empty => None,
            BlockCache::Loaded { index, data } => Some(*index),
        }
    }

    /// The length of the decompressed file.
    pub fn len(&self) -> (len: u64)
        ensures
            len == total_size(self@.extents),
    {
        proof {
            use_type_invariant(self);
        }
        let count = self.metadata.len();
        if count == 0 {
            0
        } else {
            proof {
                lemma_contiguous_bounds(self.metadata@, 0, count - 1);
            }
            let last = self.metadata[count - 1];
            last.decompressed_offset + last.decompressed_size as u64
        }
    }

    /// Moves the position. A seek from the start takes any offset. A seek
    /// from the current position or from the end fails with `InvalidSeek`, and
    /// changes nothing, where the target would be negative or larger than
    /// `i64::MAX`. The target is not held against the length of the file: a
    /// position that no block holds shows at the next `read`.
    pub fn seek(&mut self, from: SeekFrom) -> (r: Result<u64, SqPackError>)
        ensures
            final(self)@ == old(self)@.seek(from),
            final(self)@.wf(),
            r == if old(self)@.seek_allowed(from) {
                Ok::<u64, SqPackError>(old(self)@.seek_target(from) as u64)
            } else {
                Err::<u64, SqPackError>(SqPackError::InvalidSeek)
            },
    {
        proof {
            use_type_invariant(&*self);
        }
        let (base, offset): (u64, i64) = match from {
            SeekFrom::Start(position) => {
                self.position = position;
                return Ok(position);
            },
            SeekFrom::Current(offset) => (self.position, offset),
            SeekFrom::End(offset) => (self.len(), offset),
        };
        let target: i128 = base as i128 + offset as i128;
        if target < 0 || target > i64::MAX as i128 {
            return Err(SqPackError::InvalidSeek);
        }
        self.position = target as u64;
        Ok(target as u64)
    }

    /// Hands the stream the decoded block of the extent it is at. A block of
    /// another size than the block table gives is refused with
    /// `UnexpectedBlockSize`, and the stream stays as it was.
    pub fn supply_block(&mut self, decoded: Vec<u8>) -> (r: Result<(), SqPackError>)
        ensures
            final(self)@ == old(self)@.supply(decoded@),
            final(self)@.wf(),
            r == if old(self)@.accepts(decoded@) {
                Ok::<(), SqPackError>(())
            } else {
                Err::<(), SqPackError>(
                    SqPackError::UnexpectedBlockSize {
                        expected: old(self)@.expected_size() as usize,
                        got: decoded@.len() as usize,
                    },
                )
            },
    {
        proof {
            use_type_invariant(&*self);
        }
        if self.metadata.len() == 0 {
            return Err(SqPackError::UnexpectedBlockSize { expected: 0, got: decoded.len() });
        }
        let expected: usize = self.metadata[self.current_block].decompressed_size as usize;
        if decoded.len() != expected {
            return Err(SqPackError::UnexpectedBlockSize { expected, got: decoded.len() });
        }
        self.block_data = BlockCache::Loaded { index: self.current_block, data: decoded };
        Ok(())
    }

    /// Reads from the current position into the front of `buf`.
    ///
    /// `Read(n)` says that `n` bytes were copied and the position moved by
    /// `n`; `n` is 0 at the end of the file, and may be less than the buffer
    /// holds where the block ends first. `Fetch` says that the block of the
    /// position has to be supplied before anything can be read; the stream has
    /// moved to its extent and dropped the block it held. `OutOfRange` says
    /// that no block holds the position; the stream is unchanged.
    pub fn read(&mut self, buf: &mut [u8]) -> (r: Result<ReadStep, SqPackError>)
        ensures
            final(self)@ == old(self)@.read(old(buf)@.len() as int).stream,
            final(self)@.wf(),
            r == old(self)@.read(old(buf)@.len() as int).result,
            final(buf)@ == old(self)@.read(old(buf)@.len() as int).bytes + old(buf)@.skip(
                old(self)@.read(old(buf)@.len() as int).bytes.len() as int,
            ),
    {
        proof {
            use_type_invariant(&*self);
        }
        let count = self.metadata.len();
        if count == 0 {
            proof {
                lemma_first_containing(self.metadata@, self.position as int, 0);
            }
            assert(buf@ == Seq::<u8>::empty() + buf@.skip(0));
            if self.position == 0 {
                return Ok(ReadStep::Read(0));
            }
            return Err(SqPackError::OutOfRange { position: self.position });
        }
        proof {
            lemma_contiguous_bounds(self.metadata@, 0, self.current_block as int);
        }
        let mut meta = self.metadata[self.current_block];
        let mut end: u64 = meta.decompressed_offset + meta.decompressed_size as u64;
        if self.position == end && self.current_block == count - 1 {
            assert(buf@ == Seq::<u8>::empty() + buf@.skip(0));
            return Ok(ReadStep::Read(0));
        }
        if self.position < meta.decompressed_offset || self.position >= end {
            match find_extent(&self.metadata, self.position) {
                None => {
                    assert(buf@ == Seq::<u8>::empty() + buf@.skip(0));
                    return Err(SqPackError::OutOfRange { position: self.position });
                },
                Some(index) => {
                    proof {
                        lemma_first_containing(self.metadata@, self.position as int, 0);
                    }
                    self.block_data = BlockCache::Empty;
                    self.current_block = index;
                    meta = self.metadata[index];
                    proof {
                        lemma_contiguous_bounds(self.metadata@, 0, index as int);
                    }
                    end = meta.decompressed_offset + meta.decompressed_size as u64;
                },
            }
        }
        let copied: usize = match &self.block_data {
            BlockCache::Empty => {
                assert(buf@ == Seq::<u8>::empty() + buf@.skip(0));
                return Ok(
                    ReadStep::Fetch(
                        BlockRequest {
                            codec: self.codec,
                            offset: self.dat_offset as u64 + meta.compressed_offset as u64,
                            compressed_size: meta.compressed_size,
                            decompressed_size: meta.decompressed_size,
                        },
                    ),
                );
            },
            BlockCache::Loaded { index, data } => {
                let start: usize = (self.position - meta.decompressed_offset) as usize;
                let rest: usize = data.len() - start;
                let count: usize = if buf.len() < rest {
                    buf.len()
                } else {
                    rest
                };
                let ghost before = buf@;
                let mut k: usize = 0;
                while k < count
                    invariant
                        k <= count,
                        start + count <= data.len(),
                        count <= buf@.len(),
                        buf@.len() == before.len(),
                        buf@ == data@.subrange(start as int, start + k) + before.skip(k as int),
                    decreases count - k,
                {
                    buf[k] = data[start + k];
                    k += 1;
                }
                count
            },
        };
        self.position = self.position + copied as u64;
        Ok(ReadStep::Read(copied))
    }
}

/// Decodes a block that is stored as it is: it is its own decoded form, and
/// must have the size that is expected of that.
pub fn decode_stored(stored: Vec<u8>, expected: u16) -> (r: Result<Vec<u8>, SqPackError>)
    ensures
        r is Ok <==> stored@.len() == expected,
        r matches Ok(decoded) ==> decoded@ == stored@,
        r matches Err(error) ==> error == (SqPackError::UnexpectedBlockSize {
            expected: expected as usize,
            got: stored@.len() as usize,
        }),
{
    if stored.len() == expected as usize {
        Ok(stored)
    } else {
        Err(SqPackError::UnexpectedBlockSize { expected: expected as usize, got: stored.len() })
    }
}

/// The first extent that holds `position`, if any.
pub fn find_extent(extents: &Vec<BlockExtent>, position: u64) -> (found: Option<usize>)
    requires
        contiguous(extents@),
        extents@.len() <= max_blocks(),
    ensures
        found is Some <==> first_containing(extents@, position as int) is Some,
        found is Some ==> found->0 == first_containing(extents@, position as int)->0,
{
    let mut i: usize = 0;
    while i < extents.len()
        invariant
            i <= extents.len(),
            contiguous(extents@),
            extents@.len() <= max_blocks(),
            first_containing(extents@, position as int) == super::extent::first_containing_from(
                extents@,
                position as int,
                i as int,
            ),
        decreases extents.len() - i,
    {
        proof {
            lemma_contiguous_bounds(extents@, 0, i as int);
        }
        let extent = extents[i];
        if extent.decompressed_offset <= position && position - extent.decompressed_offset
            < extent.decompressed_size as u64 {
            return Some(i);
        }
        i += 1;
    }
    None
}

} // verus!
