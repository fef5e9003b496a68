use ironworks::error::{Error, ErrorValue};
use ironworks::sestring::payload::single_thousands;
use ironworks::sestring::{
    Context, Expression, Identity, Kind, SeString, Segment, Thousands, TwoDigit, Value,
};

fn str(bytes: &[u8]) -> Expression {
    Expression::String(SeString::from_bytes(bytes).unwrap())
}

#[test]
fn thousands_unknown() {
    assert_eq!(
        Thousands
            .resolve(
                &[Expression::U32(Value::UNKNOWN), str(b",")],
                &mut Context::default()
            )
            .unwrap(),
        "0"
    )
}

#[test]
fn thousands_small() {
    assert_eq!(
        Thousands
            .resolve(&[Expression::U32(420), str(b",")], &mut Context::default())
            .unwrap(),
        "420"
    )
}

#[test]
fn thousands_large() {
    assert_eq!(
        Thousands
            .resolve(
                &[Expression::U32(42069), str(b",")],
                &mut Context::default()
            )
            .unwrap(),
        "42,069"
    )
}

#[test]
fn two_digit_unknown() {
    assert_eq!(
        TwoDigit
            .resolve(&[Expression::U32(Value::UNKNOWN)], &mut Context::default())
            .unwrap(),
        "00"
    )
}

#[test]
fn two_digit_small() {
    assert_eq!(
        TwoDigit
            .resolve(&[Expression::U32(5)], &mut Context::default())
            .unwrap(),
        "05"
    )
}

#[test]
fn two_digit_large() {
    assert_eq!(
        TwoDigit
            .resolve(&[Expression::U32(55)], &mut Context::default())
            .unwrap(),
        "55"
    )
}

fn invalid(message: &str) -> Error {
    Error::Invalid(ErrorValue::Other("SeString".to_string()), message.to_string())
}

#[test]
fn thousands_pads_the_last_three_digits() {
    let mut context = Context::default();
    let show = |number: u32| {
        Thousands.resolve(&[Expression::U32(number), str(b".")], &mut Context::default()).unwrap()
    };
    assert_eq!(show(0), "0");
    assert_eq!(show(999), "999");
    assert_eq!(show(1000), "1.000");
    assert_eq!(show(1001), "1.001");
    assert_eq!(show(20_010), "20.010");
    assert_eq!(show(1_234_567), "1234.567");
    assert_eq!(show(16_777_215), "16777.215");
    assert_eq!(show(u32::MAX - 1), "4294967.294");
    assert_eq!(
        Thousands.resolve(&[Expression::U32(5000), str(b"")], &mut context).unwrap(),
        "5000"
    );
}

#[test]
fn two_digit_keeps_longer_numbers() {
    let mut context = Context::default();
    assert_eq!(TwoDigit.resolve(&[Expression::U32(0)], &mut context).unwrap(), "00");
    assert_eq!(TwoDigit.resolve(&[Expression::U32(9)], &mut context).unwrap(), "09");
    assert_eq!(TwoDigit.resolve(&[Expression::U32(10)], &mut context).unwrap(), "10");
    assert_eq!(TwoDigit.resolve(&[Expression::U32(123)], &mut context).unwrap(), "123");
    assert_eq!(
        TwoDigit.resolve(&[Expression::U32(u32::MAX - 1)], &mut context).unwrap(),
        "4294967294"
    );
}

#[test]
fn identity_shows_texts_and_numbers() {
    let mut context = Context::default();
    assert_eq!(Identity.resolve(&[str(b"abc")], &mut context).unwrap(), "abc");
    assert_eq!(Identity.resolve(&[Expression::U32(0)], &mut context).unwrap(), "0");
    assert_eq!(Identity.resolve(&[Expression::U32(1234)], &mut context).unwrap(), "1234");
    assert_eq!(Identity.resolve(&[Expression::U32(Value::UNKNOWN)], &mut context).unwrap(), "0");
    assert_eq!(
        Identity.resolve(&[Expression::U32(7), Expression::U32(8)], &mut context).unwrap(),
        "7"
    );
}

#[test]
fn arguments_of_the_wrong_kind_are_invalid() {
    let mut context = Context::default();
    assert_eq!(
        TwoDigit.resolve(&[str(b"5")], &mut context),
        Err(invalid("cannot resolve string value to u32"))
    );
    assert_eq!(
        Thousands.resolve(&[Expression::U32(5), Expression::U32(6)], &mut context),
        Err(invalid("cannot resolve u32 value to string"))
    );
    assert_eq!(
        Thousands.resolve(&[str(b"5"), Expression::U32(6)], &mut context),
        Err(invalid("cannot resolve string value to u32"))
    );
}

#[test]
fn missing_arguments_are_invalid() {
    let mut context = Context::default();
    assert_eq!(Identity.resolve(&[], &mut context), Err(invalid("insufficient arguments")));
    assert_eq!(TwoDigit.resolve(&[], &mut context), Err(invalid("insufficient arguments")));
    assert_eq!(
        Thousands.resolve(&[Expression::U32(5)], &mut context),
        Err(invalid("insufficient arguments"))
    );
}

#[test]
fn text_resolves_its_segments_in_order() {
    let text = SeString(vec![
        Segment::Text("Costs ".to_string()),
        Segment::Payload {
            kind: Kind::Thousands,
            arguments: vec![Expression::U32(1_500_000), str(b",")],
        },
        Segment::Text(" gil, ".to_string()),
        Segment::Payload { kind: Kind::TwoDigit, arguments: vec![Expression::U32(7)] },
        Segment::Payload { kind: Kind::Identity, arguments: vec![str(b"s")] },
    ]);
    assert_eq!(text.resolve(&mut Context::default()).unwrap(), "Costs 1500,000 gil, 07s");
    assert_eq!(SeString(Vec::new()).resolve(&mut Context::default()).unwrap(), "");
}

#[test]
fn failing_payload_is_reported_with_its_kind() {
    let text = SeString(vec![
        Segment::Text("a".to_string()),
        Segment::Payload { kind: Kind::TwoDigit, arguments: vec![] },
        Segment::Payload { kind: Kind::Thousands, arguments: vec![str(b"x")] },
    ]);
    assert_eq!(
        text.resolve(&mut Context::default()),
        Err(invalid("failed to resolve payload TwoDigit: insufficient arguments"))
    );
    let nested = SeString(vec![Segment::Payload {
        kind: Kind::Identity,
        arguments: vec![Expression::String(SeString(vec![Segment::Payload {
            kind: Kind::Thousands,
            arguments: vec![Expression::U32(1)],
        }]))],
    }]);
    assert_eq!(
        nested.resolve(&mut Context::default()),
        Err(invalid(
            "failed to resolve payload Identity: failed to resolve payload Thousands: insufficient arguments"
        ))
    );
}

/// What single-precision arithmetic makes of the thousands of a number.
fn in_single_precision(number: u32) -> u64 {
    (number as f32 / 1000.0).floor() as u64
}

#[test]
fn thousands_are_those_of_single_precision() {
    for number in 0..200_000u32 {
        assert_eq!(single_thousands(number), in_single_precision(number), "{}", number);
    }
    for exponent in 10..32u32 {
        let edge = 1u32 << exponent;
        for number in edge - 70_000..=edge.saturating_add(70_000) {
            assert_eq!(single_thousands(number), in_single_precision(number), "{}", number);
        }
    }
    for exponent in 12..22u32 {
        let edge = (1u32 << exponent) * 1000;
        for number in edge - 70_000..=edge + 70_000 {
            assert_eq!(single_thousands(number), in_single_precision(number), "{}", number);
        }
    }
    for number in (u32::MAX - 200_000)..=u32::MAX {
        assert_eq!(single_thousands(number), in_single_precision(number), "{}", number);
    }
    let mut number = 0u32;
    while number < u32::MAX - 4099 {
        assert_eq!(single_thousands(number), in_single_precision(number), "{}", number);
        number += 4099;
    }
    let mut number = 999u32;
    while number < u32::MAX - 3000 {
        for near in number - 3..=number + 3 {
            assert_eq!(single_thousands(near), in_single_precision(near), "{}", near);
        }
        number += 3000;
    }
}

#[test]
fn thousands_of_large_numbers_are_rounded() {
    let show = |number: u32| {
        Thousands.resolve(&[Expression::U32(number), str(b",")], &mut Context::default()).unwrap()
    };
    for number in [16_777_999u32, 16_778_999, 33_554_431, 100_000_999, 2_147_483_647, 4_000_000_750] {
        let expected = format!("{}{}{:03}", (number as f32 / 1000.0).floor(), ",", number % 1000);
        assert_eq!(show(number), expected);
    }
    assert_eq!(show(16_777_999), "16778,999");
    assert_eq!(show(16_777_998), "16777,998");
}
