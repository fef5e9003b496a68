use ironworks::error::Error;
use ironworks::sestring::read::{read_integer, PAYLOAD_END, PAYLOAD_START};
use ironworks::sestring::{Context, Expression, Kind, SeString, Segment};

fn text(text: &str) -> Segment {
    Segment::Text(text.to_string())
}

fn unreadable(message: &str) -> Result<SeString, Error> {
    Err(Error::InvalidResource(message.to_string()))
}

/// The failure of a text that holds the given bytes where it must hold UTF-8.
fn not_utf8(bytes: &[u8]) -> Result<SeString, Error> {
    Err(Error::InvalidResource(std::str::from_utf8(bytes).unwrap_err().to_string()))
}

#[test]
fn plain_text_is_one_segment() {
    assert_eq!(SeString::from_bytes(b","), Ok(SeString(vec![text(",")])));
    assert_eq!(
        SeString::from_bytes("Gr\u{fc}\u{df}e".as_bytes()),
        Ok(SeString(vec![text("Gr\u{fc}\u{df}e")]))
    );
    assert_eq!(SeString::from_bytes(b""), Ok(SeString(Vec::new())));
}

#[test]
fn zero_byte_ends_the_text() {
    assert_eq!(SeString::from_bytes(b"ab\0cd"), Ok(SeString(vec![text("ab")])));
    assert_eq!(SeString::from_bytes(b"\0\xff\xff"), Ok(SeString(Vec::new())));
}

#[test]
fn payload_stands_between_text() {
    let bytes = [
        b'a', PAYLOAD_START, 0x22, 0x07, 0xf2, 0xa4, 0x55, 0xff, 0x02, b',', PAYLOAD_END, b'b',
        PAYLOAD_START, 0x24, 0x02, 0x06, PAYLOAD_END,
    ];
    let read = SeString::from_bytes(&bytes).unwrap();
    assert_eq!(
        read,
        SeString(vec![
            text("a"),
            Segment::Payload {
                kind: Kind::Thousands,
                arguments: vec![
                    Expression::U32(42069),
                    Expression::String(SeString(vec![text(",")])),
                ],
            },
            text("b"),
            Segment::Payload { kind: Kind::TwoDigit, arguments: vec![Expression::U32(5)] },
        ])
    );
    assert_eq!(read.resolve(&mut Context::default()).unwrap(), "a42,069b05");
}

#[test]
fn payload_without_arguments() {
    assert_eq!(
        SeString::from_bytes(&[PAYLOAD_START, 0x20, 0x01, PAYLOAD_END]),
        Ok(SeString(vec![Segment::Payload { kind: Kind::Identity, arguments: Vec::new() }]))
    );
}

#[test]
fn text_in_an_expression_may_hold_payloads() {
    let inner = [PAYLOAD_START, 0x24, 0x02, 0x08, PAYLOAD_END, b'!'];
    let mut bytes = vec![PAYLOAD_START, 0x20, 0x09, 0xff, 0x07];
    bytes.extend_from_slice(&inner);
    bytes.push(PAYLOAD_END);
    let read = SeString::from_bytes(&bytes).unwrap();
    assert_eq!(
        read,
        SeString(vec![Segment::Payload {
            kind: Kind::Identity,
            arguments: vec![Expression::String(SeString(vec![
                Segment::Payload { kind: Kind::TwoDigit, arguments: vec![Expression::U32(7)] },
                text("!"),
            ]))],
        }])
    );
    assert_eq!(read.resolve(&mut Context::default()).unwrap(), "07!");
}

#[test]
fn integers_of_every_width() {
    assert_eq!(read_integer(&[0x01], 0, 1), Some((0, 1)));
    assert_eq!(read_integer(&[0xcf], 0, 1), Some((206, 1)));
    assert_eq!(read_integer(&[0xf0, 0x05], 0, 2), Some((5, 2)));
    assert_eq!(read_integer(&[0xf1, 0x05], 0, 2), Some((0x0500, 2)));
    assert_eq!(read_integer(&[0xf2, 0xa4, 0x55], 0, 3), Some((0xa455, 3)));
    assert_eq!(read_integer(&[0xf3, 0x12], 0, 2), Some((0x12_0000, 2)));
    assert_eq!(read_integer(&[0xf7, 0x12], 0, 2), Some((0x1200_0000, 2)));
    assert_eq!(read_integer(&[0xfa, 0x01, 0x02, 0x03], 0, 4), Some((0x0100_0203, 4)));
    assert_eq!(read_integer(&[0xfe, 0x01, 0x02, 0x03, 0x04], 0, 5), Some((0x0102_0304, 5)));
    assert_eq!(read_integer(&[0xfe, 0xff, 0xff, 0xff, 0xff], 0, 5), Some((u32::MAX, 5)));
    assert_eq!(read_integer(&[0x00, 0x09, 0xf0, 0x07, 0x09], 1, 5), Some((8, 2)));
    assert_eq!(read_integer(&[0x00, 0x09, 0xf0, 0x07, 0x09], 2, 5), Some((7, 4)));
}

#[test]
fn what_is_no_integer() {
    assert_eq!(read_integer(&[0x00], 0, 1), None);
    assert_eq!(read_integer(&[0xd0], 0, 1), None);
    assert_eq!(read_integer(&[0xef], 0, 1), None);
    assert_eq!(read_integer(&[0xff, 0x01], 0, 2), None);
    assert_eq!(read_integer(&[0x05], 0, 0), None);
    assert_eq!(read_integer(&[0xf2, 0xa4, 0x55], 0, 2), None);
    assert_eq!(read_integer(&[0xfe, 1, 2, 3], 0, 4), None);
}

#[test]
fn text_that_is_not_utf8_is_refused() {
    assert_eq!(SeString::from_bytes(b"a\xffb"), not_utf8(b"a\xffb"));
    assert_eq!(
        SeString::from_bytes(b"a\xffb"),
        unreadable("invalid utf-8 sequence of 1 bytes from index 1")
    );
    assert_eq!(
        SeString::from_bytes(&[PAYLOAD_START, 0x20, 0x01, PAYLOAD_END, 0xc3]),
        not_utf8(&[0xc3])
    );
}

#[test]
fn payload_of_unknown_kind_is_refused() {
    assert_eq!(
        SeString::from_bytes(&[PAYLOAD_START, 0x21, 0x01, PAYLOAD_END]),
        unreadable("payload of unknown kind")
    );
    assert_eq!(SeString::from_bytes(&[b'a', PAYLOAD_START]), unreadable("payload of unknown kind"));
}

#[test]
fn payload_with_a_bad_length_is_refused() {
    assert_eq!(SeString::from_bytes(&[PAYLOAD_START, 0x20]), unreadable("invalid length"));
    assert_eq!(SeString::from_bytes(&[PAYLOAD_START, 0x20, 0xd0]), unreadable("invalid length"));
    assert_eq!(SeString::from_bytes(&[PAYLOAD_START, 0x20, 0x01]), unreadable("invalid length"));
    assert_eq!(
        SeString::from_bytes(&[PAYLOAD_START, 0x20, 0x03, 0x05, PAYLOAD_END]),
        unreadable("invalid length")
    );
}

#[test]
fn payload_without_the_end_marker_is_refused() {
    assert_eq!(
        SeString::from_bytes(&[PAYLOAD_START, 0x20, 0x02, 0x05, 0x04]),
        unreadable("payload missing end marker")
    );
}

#[test]
fn argument_that_is_no_expression_is_refused() {
    assert_eq!(
        SeString::from_bytes(&[PAYLOAD_START, 0x20, 0x02, 0xd8, PAYLOAD_END]),
        unreadable("invalid expression")
    );
    assert_eq!(
        SeString::from_bytes(&[PAYLOAD_START, 0x20, 0x03, 0xf2, 0x01, PAYLOAD_END]),
        unreadable("invalid expression")
    );
    assert_eq!(
        SeString::from_bytes(&[PAYLOAD_START, 0x20, 0x03, 0xff, 0x05, PAYLOAD_END]),
        unreadable("invalid expression")
    );
    assert_eq!(
        SeString::from_bytes(&[PAYLOAD_START, 0x20, 0x04, 0xff, 0x02, 0xff, PAYLOAD_END]),
        not_utf8(&[0xff])
    );
}
