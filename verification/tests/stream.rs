use ironworks::sqpack::{
    decode_stored, read, BlockExtent, BlockRequest, Codec, FileStream, Header, ReadStep, SeekFrom,
    SqPackError,
};

/// A block table for blocks of the given decoded sizes, stored one behind the
/// other from `first` on, each as long compressed as decoded.
fn table(first: u32, sizes: &[u16]) -> Vec<u8> {
    let mut bytes = Vec::new();
    let mut offset = first;
    for size in sizes {
        bytes.extend_from_slice(&offset.to_le_bytes());
        bytes.extend_from_slice(&size.to_le_bytes());
        bytes.extend_from_slice(&size.to_le_bytes());
        offset += u32::from(*size);
    }
    bytes
}

/// A container that stores its blocks as they are.
struct Stored {
    data: Vec<u8>,
    fetched: Vec<u64>,
}

impl Stored {
    fn new(len: usize) -> Stored {
        Stored { data: (0..len).map(|i| (i * 7 + 3) as u8).collect(), fetched: Vec::new() }
    }

    fn fetch(&mut self, request: BlockRequest) -> Vec<u8> {
        self.fetched.push(request.offset);
        let start = request.offset as usize;
        self.data[start..start + usize::from(request.compressed_size)].to_vec()
    }
}

/// Reads into `buf` as a reader of the file would: fetches what is asked for.
fn read_some(
    stream: &mut FileStream,
    container: &mut Stored,
    buf: &mut Vec<u8>,
) -> Result<usize, SqPackError> {
    loop {
        match stream.read(buf)? {
            ReadStep::Read(count) => return Ok(count),
            ReadStep::Fetch(request) => {
                let block = container.fetch(request);
                stream.supply_block(block)?;
            }
        }
    }
}

fn open(sizes: &[u16]) -> (FileStream, Stored) {
    let total: usize = sizes.iter().map(|size| usize::from(*size)).sum();
    let header = Header { block_count: sizes.len() as u32, codec: Codec::Stored };
    let stream = read(&table(0, sizes), 0, header).unwrap();
    (stream, Stored::new(total))
}

#[test]
fn seek_near_end_reads_short_then_eof() {
    let (mut stream, mut container) = open(&[10, 5]);
    assert_eq!(stream.seek(SeekFrom::Start(12)), Ok(12));
    let mut buf = vec![0u8; 4];
    assert_eq!(read_some(&mut stream, &mut container, &mut buf), Ok(3));
    assert_eq!(&buf[..3], &container.data[12..15]);
    assert_eq!(buf[3], 0);
    assert_eq!(read_some(&mut stream, &mut container, &mut buf), Ok(0));
    assert_eq!(stream.position(), 15);
}

#[test]
fn extents_follow_the_block_table() {
    let header = Header { block_count: 3, codec: Codec::Stored };
    let stream = read(&table(128, &[10, 0, 5]), 64, header).unwrap();
    let expected = vec![
        BlockExtent { compressed_offset: 128, compressed_size: 10, decompressed_offset: 0, decompressed_size: 10 },
        BlockExtent { compressed_offset: 138, compressed_size: 0, decompressed_offset: 10, decompressed_size: 0 },
        BlockExtent { compressed_offset: 138, compressed_size: 5, decompressed_offset: 10, decompressed_size: 5 },
    ];
    assert_eq!(stream.extents(), &expected);
    assert_eq!(stream.len(), 15);
    assert_eq!(stream.position(), 0);
    assert_eq!(stream.cached_block(), None);
}

#[test]
fn truncated_block_table_is_an_io_failure() {
    let mut bytes = table(0, &[10, 5]);
    bytes.pop();
    let error = read(&bytes, 0, Header { block_count: 2, codec: Codec::Stored }).unwrap_err();
    assert_eq!(
        error,
        SqPackError::IoFailure("block table ends before its last descriptor".to_string())
    );
    assert!(read(&bytes, 0, Header { block_count: 1, codec: Codec::Stored }).is_ok());
}

#[test]
fn whole_file_in_one_buffer_equals_small_reads() {
    let sizes = [10u16, 5, 7, 1];
    let (mut whole, mut container) = open(&sizes);
    let mut all = Vec::new();
    let mut buf = vec![0u8; 64];
    loop {
        let count = read_some(&mut whole, &mut container, &mut buf).unwrap();
        if count == 0 {
            break;
        }
        all.extend_from_slice(&buf[..count]);
    }
    assert_eq!(all, container.data);

    let (mut pieces, mut other) = open(&sizes);
    let mut collected = Vec::new();
    let mut round = 0usize;
    loop {
        let mut small = vec![0u8; 1 + round % 4];
        let count = read_some(&mut pieces, &mut other, &mut small).unwrap();
        if count == 0 {
            break;
        }
        collected.extend_from_slice(&small[..count]);
        round += 1;
    }
    assert_eq!(collected, all);
}

#[test]
fn seek_then_read_one_byte_matches_content() {
    let (mut stream, mut container) = open(&[10, 5, 7]);
    for position in [21u64, 0, 9, 10, 14, 15, 3] {
        assert_eq!(stream.seek(SeekFrom::Start(position)), Ok(position));
        let mut one = vec![0u8; 1];
        assert_eq!(read_some(&mut stream, &mut container, &mut one), Ok(1));
        assert_eq!(one[0], container.data[position as usize]);
    }
}

#[test]
fn read_past_the_end_is_out_of_range() {
    let (mut stream, mut container) = open(&[10, 5]);
    assert_eq!(stream.seek(SeekFrom::Start(16)), Ok(16));
    let mut buf = vec![0u8; 4];
    assert_eq!(
        read_some(&mut stream, &mut container, &mut buf),
        Err(SqPackError::OutOfRange { position: 16 })
    );
    assert_eq!(stream.position(), 16);
    assert_eq!(buf, vec![0u8; 4]);
}

#[test]
fn read_at_end_after_last_block_is_eof() {
    let (mut stream, mut container) = open(&[10, 5]);
    assert_eq!(stream.seek(SeekFrom::Start(10)), Ok(10));
    let mut buf = vec![0u8; 8];
    assert_eq!(read_some(&mut stream, &mut container, &mut buf), Ok(5));
    assert_eq!(stream.seek(SeekFrom::End(0)), Ok(15));
    assert_eq!(read_some(&mut stream, &mut container, &mut buf), Ok(0));
    assert_eq!(stream.seek(SeekFrom::Start(0)), Ok(0));
    assert_eq!(stream.seek(SeekFrom::End(0)), Ok(15));
    assert_eq!(read_some(&mut stream, &mut container, &mut buf), Ok(0));
}

#[test]
fn end_reached_by_seek_from_another_block_is_out_of_range() {
    let (mut stream, mut container) = open(&[10, 5]);
    assert_eq!(stream.seek(SeekFrom::End(0)), Ok(15));
    let mut buf = vec![0u8; 8];
    assert_eq!(
        read_some(&mut stream, &mut container, &mut buf),
        Err(SqPackError::OutOfRange { position: 15 })
    );
}

#[test]
fn crossing_a_block_drops_the_block_held() {
    let (mut stream, mut container) = open(&[4, 4]);
    let mut buf = vec![0u8; 4];
    assert_eq!(read_some(&mut stream, &mut container, &mut buf), Ok(4));
    assert_eq!(stream.cached_block(), Some(0));
    assert_eq!(stream.read(&mut buf), Ok(ReadStep::Fetch(BlockRequest {
        codec: Codec::Stored,
        offset: 4,
        compressed_size: 4,
        decompressed_size: 4,
    })));
    assert_eq!(stream.cached_block(), None);
    stream.supply_block(container.fetch(BlockRequest {
        codec: Codec::Stored,
        offset: 4,
        compressed_size: 4,
        decompressed_size: 4,
    })).unwrap();
    assert_eq!(stream.cached_block(), Some(1));
    assert_eq!(stream.seek(SeekFrom::Start(1)), Ok(1));
    assert_eq!(read_some(&mut stream, &mut container, &mut buf), Ok(3));
    assert_eq!(container.fetched, vec![0, 4, 0]);
}

#[test]
fn each_block_is_fetched_once_in_a_pass() {
    let (mut stream, mut container) = open(&[3, 3, 3]);
    let mut buf = vec![0u8; 2];
    let mut total = 0;
    loop {
        let count = read_some(&mut stream, &mut container, &mut buf).unwrap();
        if count == 0 {
            break;
        }
        total += count;
    }
    assert_eq!(total, 9);
    assert_eq!(container.fetched, vec![0, 3, 6]);
}

#[test]
fn block_of_wrong_size_is_refused() {
    let (mut stream, _) = open(&[10, 5]);
    let mut buf = vec![0u8; 4];
    assert!(matches!(stream.read(&mut buf), Ok(ReadStep::Fetch(_))));
    assert_eq!(
        stream.supply_block(vec![0u8; 9]),
        Err(SqPackError::UnexpectedBlockSize { expected: 10, got: 9 })
    );
    assert_eq!(stream.cached_block(), None);
    assert_eq!(stream.supply_block(vec![1u8; 10]), Ok(()));
    assert_eq!(stream.read(&mut buf), Ok(ReadStep::Read(4)));
    assert_eq!(buf, vec![1u8; 4]);
}

#[test]
fn request_is_offset_by_the_place_of_the_file() {
    let stream_bytes = table(32, &[6]);
    let mut stream = read(&stream_bytes, 1000, Header { block_count: 1, codec: Codec::Stored }).unwrap();
    let mut buf = vec![0u8; 1];
    assert_eq!(
        stream.read(&mut buf),
        Ok(ReadStep::Fetch(BlockRequest {
            codec: Codec::Stored,
            offset: 1032,
            compressed_size: 6,
            decompressed_size: 6
        }))
    );
}

#[test]
fn seek_arithmetic() {
    let (mut stream, _) = open(&[10, 5]);
    assert_eq!(stream.seek(SeekFrom::Current(-1)), Err(SqPackError::InvalidSeek));
    assert_eq!(stream.position(), 0);
    assert_eq!(stream.seek(SeekFrom::Current(7)), Ok(7));
    assert_eq!(stream.seek(SeekFrom::Current(-7)), Ok(0));
    assert_eq!(stream.seek(SeekFrom::End(-15)), Ok(0));
    assert_eq!(stream.seek(SeekFrom::End(-16)), Err(SqPackError::InvalidSeek));
    assert_eq!(stream.seek(SeekFrom::End(100)), Ok(115));
    assert_eq!(stream.seek(SeekFrom::Current(i64::MAX)), Err(SqPackError::InvalidSeek));
    assert_eq!(stream.position(), 115);
    assert_eq!(stream.seek(SeekFrom::Current(i64::MAX - 115)), Ok(i64::MAX as u64));
    assert_eq!(stream.seek(SeekFrom::Start(u64::MAX)), Ok(u64::MAX));
    assert_eq!(stream.seek(SeekFrom::Current(0)), Err(SqPackError::InvalidSeek));
    assert_eq!(stream.seek(SeekFrom::Current(i64::MIN)), Ok(u64::MAX - (1u64 << 63)));
}

#[test]
fn file_without_blocks() {
    let mut stream = FileStream::new(0, Codec::Stored, Vec::new());
    let mut buf = vec![9u8; 2];
    assert_eq!(stream.seek(SeekFrom::End(0)), Ok(0));
    assert_eq!(stream.read(&mut buf), Ok(ReadStep::Read(0)));
    assert_eq!(stream.seek(SeekFrom::End(3)), Ok(3));
    assert_eq!(stream.read(&mut buf), Err(SqPackError::OutOfRange { position: 3 }));
    assert_eq!(
        stream.supply_block(Vec::new()),
        Err(SqPackError::UnexpectedBlockSize { expected: 0, got: 0 })
    );
    assert_eq!(buf, vec![9u8; 2]);
}

#[test]
fn empty_buffer_reads_nothing() {
    let (mut stream, mut container) = open(&[10]);
    let mut buf = Vec::new();
    assert_eq!(read_some(&mut stream, &mut container, &mut buf), Ok(0));
    assert_eq!(stream.position(), 0);
}

#[test]
fn request_names_the_codec_of_the_file() {
    let header = Header { block_count: 1, codec: Codec::Compressed };
    let mut stream = read(&table(16, &[300]), 8, header).unwrap();
    assert_eq!(stream.codec(), Codec::Compressed);
    let mut buf = vec![0u8; 1];
    assert_eq!(
        stream.read(&mut buf),
        Ok(ReadStep::Fetch(BlockRequest {
            codec: Codec::Compressed,
            offset: 24,
            compressed_size: 300,
            decompressed_size: 300
        }))
    );
}

#[test]
fn stored_block_is_its_own_decoded_form() {
    assert_eq!(decode_stored(vec![1, 2, 3], 3), Ok(vec![1, 2, 3]));
    assert_eq!(decode_stored(Vec::new(), 0), Ok(Vec::new()));
    assert_eq!(
        decode_stored(vec![1, 2, 3], 4),
        Err(SqPackError::UnexpectedBlockSize { expected: 4, got: 3 })
    );
}

#[test]
fn header_holds_count_and_format() {
    assert_eq!(
        Header::parse(&[2, 1, 0, 0, 0, 0, 0, 0]),
        Ok(Header { block_count: 258, codec: Codec::Stored })
    );
    assert_eq!(
        Header::parse(&[0, 0, 0, 0x80, 1, 0, 0, 0, 9, 9]),
        Ok(Header { block_count: 0x8000_0000, codec: Codec::Compressed })
    );
    assert_eq!(
        Header::parse(&[2, 0, 0, 0, 2, 0, 0, 0]),
        Err(SqPackError::IoFailure("header names no known block format".to_string()))
    );
    assert_eq!(
        Header::parse(&[2, 0, 0, 0, 0, 1, 0, 0]),
        Err(SqPackError::IoFailure("header names no known block format".to_string()))
    );
    assert_eq!(
        Header::parse(&[2, 0, 0, 0, 0, 0, 0]),
        Err(SqPackError::IoFailure("header ends before its block format".to_string()))
    );
    assert_eq!(Codec::from_tag(0), Some(Codec::Stored));
    assert_eq!(Codec::from_tag(1), Some(Codec::Compressed));
    assert_eq!(Codec::from_tag(u32::MAX), None);
}
