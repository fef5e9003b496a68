//! The decompressed file as a whole, and what reads deliver of it.
//!
//! A stream sees one block at a time and never the file. What is proved here
//! is stated over the blocks as a decoder would hand them out: whatever the
//! sizes of the buffers and the order of the seeks, the bytes that come out
//! are those of the blocks laid end to end.

use super::error::SqPackError;
use super::extent::{
    contiguous, first_containing, lemma_contiguous_bounds, lemma_first_containing, total_size,
    BlockExtent,
};
use super::stream::{HeldBlock, ReadStep, SeekFrom, StreamView};
use vstd::prelude::*;

verus! {

/// The first `count` blocks laid end to end.
pub open spec fn concat_blocks(blocks: Seq<Seq<u8>>, count: int) -> Seq<u8>
    decreases count,
{
    if count <= 0 {
        Seq::empty()
    } else {
        concat_blocks(blocks, count - 1) + blocks[count - 1]
    }
}

/// The decompressed file: all its blocks laid end to end.
pub open spec fn logical_content(blocks: Seq<Seq<u8>>) -> Seq<u8> {
    concat_blocks(blocks, blocks.len() as int)
}

/// Whether `blocks` can be the decoded blocks of `extents`: one for each, of
/// the size that the extent gives.
pub open spec fn decodes(extents: Seq<BlockExtent>, blocks: Seq<Seq<u8>>) -> bool {
    &&& blocks.len() == extents.len()
    &&& forall|i: int|
        0 <= i < blocks.len() ==> (#[trigger] blocks[i]).len() == extents[i].decompressed_size
}

/// Whether the stream is one over `blocks`: they fit its extents, and the
/// block it holds, if any, is that of its active extent.
pub open spec fn holds(stream: StreamView, blocks: Seq<Seq<u8>>) -> bool {
    &&& decodes(stream.extents, blocks)
    &&& stream.cache matches Some(held) ==> held.data == blocks[held.index]
}

/// What a read gives once the block it may have asked for is there.
pub struct Served {
    pub stream: StreamView,
    pub result: Result<ReadStep, SqPackError>,
    pub bytes: Seq<u8>,
}

/// One read as the reader of a file sees it: where the stream asks for a
/// block, the block is taken from `blocks` and supplied, and the read is made
/// again.
pub open spec fn serve(stream: StreamView, blocks: Seq<Seq<u8>>, capacity: int) -> Served {
    let first = stream.read(capacity);
    if first.result matches Ok(ReadStep::Fetch(_)) {
        let second = first.stream.supply(blocks[first.stream.active]).read(capacity);
        Served { stream: second.stream, result: second.result, bytes: second.bytes }
    } else {
        Served { stream: first.stream, result: first.result, bytes: first.bytes }
    }
}

/// The stream and the bytes after one read for each of the given buffer
/// sizes, in order.
pub open spec fn serve_all(stream: StreamView, blocks: Seq<Seq<u8>>, capacities: Seq<int>) -> (
    StreamView,
    Seq<u8>,
)
    decreases capacities.len(),
{
    if capacities.len() == 0 {
        (stream, Seq::empty())
    } else {
        let head = serve(stream, blocks, capacities[0]);
        let tail = serve_all(head.stream, blocks, capacities.drop_first());
        (tail.0, head.bytes + tail.1)
    }
}

/// Whether each of the sizes is one that a buffer can have.
pub open spec fn buffer_sizes(capacities: Seq<int>) -> bool {
    forall|i: int| 0 <= i < capacities.len() ==> 0 <= #[trigger] capacities[i] <= usize::MAX
}

/// The first `count` blocks end where extent `count` starts.
pub proof fn lemma_concat_len(extents: Seq<BlockExtent>, blocks: Seq<Seq<u8>>, count: int)
    requires
        contiguous(extents),
        decodes(extents, blocks),
        0 <= count <= extents.len(),
    ensures
        concat_blocks(blocks, count).len() == if count == 0 {
            0
        } else {
            extents[count - 1].end()
        },
        count < extents.len() ==> concat_blocks(blocks, count).len()
            == extents[count].decompressed_offset,
        count == extents.len() ==> concat_blocks(blocks, count).len() == total_size(extents),
    decreases count,
{
    if count > 0 {
        lemma_concat_len(extents, blocks, count - 1);
        assert(blocks[count - 1].len() == extents[count - 1].decompressed_size);
        if count < extents.len() {
            assert(extents[(count - 1) + 1].decompressed_offset == extents[count - 1].end());
        }
    }
}

/// Each block lies in the file at the offset of its extent.
pub proof fn lemma_block_in_content(
    extents: Seq<BlockExtent>,
    blocks: Seq<Seq<u8>>,
    index: int,
    count: int,
)
    requires
        contiguous(extents),
        decodes(extents, blocks),
        0 <= index < count <= extents.len(),
    ensures
        extents[index].end() <= concat_blocks(blocks, count).len(),
        concat_blocks(blocks, count).subrange(
            extents[index].decompressed_offset as int,
            extents[index].end(),
        ) == blocks[index],
    decreases count,
{
    lemma_concat_len(extents, blocks, count - 1);
    lemma_concat_len(extents, blocks, count);
    let before = concat_blocks(blocks, count - 1);
    let whole = concat_blocks(blocks, count);
    assert(blocks[count - 1].len() == extents[count - 1].decompressed_size);
    if index == count - 1 {
        assert(whole.subrange(extents[index].decompressed_offset as int, extents[index].end())
            =~= blocks[index]);
    } else {
        lemma_block_in_content(extents, blocks, index, count - 1);
        assert(whole.subrange(extents[index].decompressed_offset as int, extents[index].end())
            =~= before.subrange(extents[index].decompressed_offset as int, extents[index].end()));
    }
}

/// Of contiguous extents, the one that holds a position is found, and every
/// position before the end of the file is held by one.
pub proof fn lemma_position_has_extent(extents: Seq<BlockExtent>, position: int)
    requires
        contiguous(extents),
        0 <= position,
    ensures
        first_containing(extents, position) is Some <==> position < total_size(extents),
        first_containing(extents, position) matches Some(i) ==> 0 <= i < extents.len()
            && extents[i].contains(position),
{
    lemma_first_containing(extents, position, 0);
    if extents.len() > 0 {
        if position < total_size(extents) {
            if first_containing(extents, position) is None {
                lemma_covered(extents, position, extents.len() - 1);
            }
        } else {
            if first_containing(extents, position) is Some {
                let i = first_containing(extents, position)->0;
                lemma_contiguous_bounds(extents, i, extents.len() - 1);
            }
        }
    }
}

/// A position before the end of extent `last` is held by one of the extents
/// up to `last`.
proof fn lemma_covered(extents: Seq<BlockExtent>, position: int, last: int)
    requires
        contiguous(extents),
        0 <= last < extents.len(),
        0 <= position < extents[last].end(),
    ensures
        exists|i: int| 0 <= i <= last && (#[trigger] extents[i]).contains(position),
    decreases last,
{
    if extents[last].contains(position) {
    } else {
        assert(last > 0);
        assert(extents[(last - 1) + 1].decompressed_offset == extents[last - 1].end());
        lemma_covered(extents, position, last - 1);
    }
}

/// A read delivers the bytes of the file from the position on, and nothing
/// else: as many as the buffer takes, up to the end of the block. It fails
/// only where the position is not in the file, and then changes nothing.
pub proof fn lemma_serve_delivers_content(stream: StreamView, blocks: Seq<Seq<u8>>, capacity: int)
    requires
        stream.wf(),
        holds(stream, blocks),
        0 <= capacity <= usize::MAX,
    ensures
        serve(stream, blocks, capacity).stream.wf(),
        holds(serve(stream, blocks, capacity).stream, blocks),
        match serve(stream, blocks, capacity).result {
            Ok(ReadStep::Read(count)) => {
                &&& count <= capacity
                &&& stream.position + count <= total_size(stream.extents)
                &&& serve(stream, blocks, capacity).stream.position == stream.position + count
                &&& serve(stream, blocks, capacity).bytes == logical_content(blocks).subrange(
                    stream.position,
                    stream.position + count,
                )
                &&& count == 0 <==> capacity == 0 || stream.at_eof()
            },
            Ok(ReadStep::Fetch(_)) => false,
            Err(error) => {
                &&& error == SqPackError::OutOfRange { position: stream.position as u64 }
                &&& serve(stream, blocks, capacity).stream == stream
                &&& serve(stream, blocks, capacity).bytes == Seq::<u8>::empty()
                &&& stream.position >= total_size(stream.extents)
                &&& !stream.at_eof()
            },
        },
{
    let extents = stream.extents;
    let content = logical_content(blocks);
    lemma_position_has_extent(extents, stream.position);
    lemma_concat_len(extents, blocks, extents.len() as int);
    if stream.at_eof() {
        assert(content.subrange(stream.position, stream.position + 0) =~= Seq::<u8>::empty());
    } else {
        if stream.in_active() {
            lemma_contiguous_bounds(extents, stream.active, extents.len() - 1);
        }
        match stream.target() {
            None => {},
            Some(index) => {
                lemma_contiguous_bounds(extents, index, extents.len() - 1);
                lemma_block_in_content(extents, blocks, index, extents.len() as int);
                let first = stream.read(capacity);
                let ready = if first.result matches Ok(ReadStep::Fetch(_)) {
                    first.stream.supply(blocks[first.stream.active])
                } else {
                    stream
                };
                assert(ready.cache == Some(HeldBlock { index, data: blocks[index] }));
                assert(ready.active == index);
                assert(ready.in_active());
                let last = ready.read(capacity);
                let start = stream.position - extents[index].decompressed_offset;
                assert(last.bytes =~= content.subrange(
                    stream.position,
                    stream.position + last.bytes.len(),
                )) by {
                    assert(blocks[index] == content.subrange(
                        extents[index].decompressed_offset as int,
                        extents[index].end(),
                    ));
                }
            },
        }
    }
}

/// Reads of any buffer sizes, one after the other, deliver one stretch of the
/// file: the bytes between the position before the first and the position
/// after the last.
pub proof fn lemma_reads_deliver_content(
    stream: StreamView,
    blocks: Seq<Seq<u8>>,
    capacities: Seq<int>,
)
    requires
        stream.wf(),
        holds(stream, blocks),
        buffer_sizes(capacities),
        stream.position <= total_size(stream.extents),
    ensures
        serve_all(stream, blocks, capacities).0.wf(),
        holds(serve_all(stream, blocks, capacities).0, blocks),
        stream.position <= serve_all(stream, blocks, capacities).0.position <= total_size(
            stream.extents,
        ),
        serve_all(stream, blocks, capacities).0.extents == stream.extents,
        serve_all(stream, blocks, capacities).1 == logical_content(blocks).subrange(
            stream.position,
            serve_all(stream, blocks, capacities).0.position,
        ),
    decreases capacities.len(),
{
    let content = logical_content(blocks);
    lemma_concat_len(stream.extents, blocks, stream.extents.len() as int);
    if capacities.len() == 0 {
        assert(content.subrange(stream.position, stream.position) =~= Seq::<u8>::empty());
    } else {
        let head = serve(stream, blocks, capacities[0]);
        lemma_serve_delivers_content(stream, blocks, capacities[0]);
        lemma_serve_keeps_extents(stream, blocks, capacities[0]);
        let rest = capacities.drop_first();
        assert(buffer_sizes(rest)) by {
            assert forall|i: int| 0 <= i < rest.len() implies 0 <= #[trigger] rest[i]
                <= usize::MAX by {
                assert(rest[i] == capacities[i + 1]);
            }
        }
        lemma_reads_deliver_content(head.stream, blocks, rest);
        let tail = serve_all(head.stream, blocks, rest);
        if head.result is Err {
            assert(head.bytes + tail.1 =~= tail.1);
        } else {
            assert(head.bytes + tail.1 =~= content.subrange(stream.position, tail.0.position));
        }
    }
}

/// A read leaves the block table and the place of the file as they are.
pub proof fn lemma_serve_keeps_extents(stream: StreamView, blocks: Seq<Seq<u8>>, capacity: int)
    ensures
        serve(stream, blocks, capacity).stream.extents == stream.extents,
        serve(stream, blocks, capacity).stream.dat_offset == stream.dat_offset,
        serve(stream, blocks, capacity).stream.codec == stream.codec,
{
}

/// How a file is cut into reads does not matter: two runs of reads from the
/// same state that end at the same position have delivered the same bytes.
/// Runs that start at the first byte of the file and end behind its last
/// have each delivered the whole file.
pub proof fn lemma_chunking_is_immaterial(
    stream: StreamView,
    blocks: Seq<Seq<u8>>,
    one: Seq<int>,
    other: Seq<int>,
)
    requires
        stream.wf(),
        holds(stream, blocks),
        buffer_sizes(one),
        buffer_sizes(other),
        stream.position <= total_size(stream.extents),
        serve_all(stream, blocks, one).0.position == serve_all(stream, blocks, other).0.position,
    ensures
        serve_all(stream, blocks, one).1 == serve_all(stream, blocks, other).1,
        stream.position == 0 && serve_all(stream, blocks, one).0.position == total_size(
            stream.extents,
        ) ==> serve_all(stream, blocks, one).1 == logical_content(blocks),
{
    lemma_reads_deliver_content(stream, blocks, one);
    lemma_reads_deliver_content(stream, blocks, other);
    lemma_concat_len(stream.extents, blocks, stream.extents.len() as int);
    let content = logical_content(blocks);
    assert(content.subrange(0, content.len() as int) =~= content);
}

/// After a seek to a position in the file, a read of one byte delivers the
/// byte that the file has at that position.
pub proof fn lemma_seek_then_read_one(stream: StreamView, blocks: Seq<Seq<u8>>, position: u64)
    requires
        stream.wf(),
        holds(stream, blocks),
        position < total_size(stream.extents),
    ensures
        serve(stream.seek(SeekFrom::Start(position)), blocks, 1).result == Ok::<
            ReadStep,
            SqPackError,
        >(ReadStep::Read(1)),
        serve(stream.seek(SeekFrom::Start(position)), blocks, 1).bytes == seq![
            logical_content(blocks)[position as int],
        ],
{
    let sought = stream.seek(SeekFrom::Start(position));
    lemma_serve_delivers_content(sought, blocks, 1);
    lemma_concat_len(stream.extents, blocks, stream.extents.len() as int);
    let served = serve(sought, blocks, 1);
    assert(served.bytes =~= seq![logical_content(blocks)[position as int]]);
}

/// A read at the end of the file, reached through the last block, delivers
/// nothing and is no error; so does one after a seek that ends there.
pub proof fn lemma_read_at_end(stream: StreamView, from: SeekFrom, capacity: int)
    requires
        stream.wf(),
        stream.seek_allowed(from),
        stream.seek_target(from) == total_size(stream.extents),
        stream.extents.len() > 0 ==> stream.active == stream.extents.len() - 1,
    ensures
        stream.seek(from).read(capacity).result == Ok::<ReadStep, SqPackError>(ReadStep::Read(0)),
        stream.seek(from).read(capacity).stream == stream.seek(from),
        stream.seek(from).read(capacity).bytes == Seq::<u8>::empty(),
{
}

/// A read behind the end of the file fails with `OutOfRange`; so does one at
/// the end that has not come there through the last block.
pub proof fn lemma_read_beyond_end(stream: StreamView, capacity: int)
    requires
        stream.wf(),
        stream.position >= total_size(stream.extents),
        !stream.at_eof(),
    ensures
        stream.read(capacity).result == Err::<ReadStep, SqPackError>(
            SqPackError::OutOfRange { position: stream.position as u64 },
        ),
        stream.read(capacity).stream == stream,
{
    lemma_position_has_extent(stream.extents, stream.position);
    if stream.extents.len() > 0 {
        lemma_contiguous_bounds(stream.extents, stream.active, stream.extents.len() - 1);
    }
}

/// While the position stays in the block that the stream holds, reads need
/// nothing from outside: the block is decoded once for all of them.
pub proof fn lemma_held_block_serves(stream: StreamView, capacity: int)
    requires
        stream.wf(),
        stream.in_active(),
        stream.cache is Some,
    ensures
        stream.read(capacity).result is Ok,
        stream.read(capacity).result->Ok_0 is Read,
        stream.read(capacity).stream.cache == stream.cache,
        stream.read(capacity).stream.active == stream.active,
{
    lemma_contiguous_bounds(stream.extents, stream.active, stream.extents.len() - 1);
}

/// A stream holds the block of its active extent or none: no call keeps a
/// block across a change of extent, and none but `supply` brings one in.
pub proof fn lemma_one_block_at_a_time(
    stream: StreamView,
    capacity: int,
    from: SeekFrom,
    decoded: Seq<u8>,
)
    ensures
        stream.read(capacity).stream.active != stream.active ==> stream.read(
            capacity,
        ).stream.cache is None,
        stream.read(capacity).stream.cache is Some ==> stream.read(capacity).stream.cache
            == stream.cache,
        stream.seek(from).active == stream.active && stream.seek(from).cache == stream.cache,
        stream.supply(decoded).active == stream.active,
        stream.supply(decoded).cache is Some ==> stream.supply(decoded).cache == Some(
            HeldBlock { index: stream.active, data: decoded },
        ) || stream.supply(decoded).cache == stream.cache,
{
}

} // verus!
