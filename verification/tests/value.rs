use ironworks::error::{Error, ErrorValue};
use ironworks::sestring::{
    resolve_argument, ArgumentExt, Context, Expression, FromArguments, Kind, SeString, Segment,
    Value,
};

fn invalid(message: &str) -> Error {
    Error::Invalid(ErrorValue::Other("SeString".to_string()), message.to_string())
}

fn text(text: &str) -> Expression {
    Expression::String(SeString(vec![Segment::Text(text.to_string())]))
}

#[test]
fn values_convert_to_their_own_kind_only() {
    assert_eq!(Value::U32(7).into_u32(), Ok(7));
    assert_eq!(Value::String("7".to_string()).into_string(), Ok("7".to_string()));
    assert_eq!(
        Value::String("7".to_string()).into_u32(),
        Err(invalid("cannot resolve string value to u32"))
    );
    assert_eq!(Value::U32(7).into_string(), Err(invalid("cannot resolve u32 value to string")));
    assert_eq!(Value::UNKNOWN, u32::MAX);
}

#[test]
fn expressions_have_values() {
    let mut context = Context::default();
    assert_eq!(Expression::U32(3).value(&mut context), Ok(Value::U32(3)));
    assert_eq!(text("abc").value(&mut context), Ok(Value::String("abc".to_string())));
    let failing = Expression::String(SeString(vec![Segment::Payload {
        kind: Kind::TwoDigit,
        arguments: Vec::new(),
    }]));
    assert_eq!(
        failing.value(&mut context),
        Err(invalid("failed to resolve payload TwoDigit: insufficient arguments"))
    );
}

#[test]
fn arguments_are_taken_by_index() {
    let mut context = Context::default();
    let arguments = [Expression::U32(1), text("two")];
    assert_eq!(resolve_argument(&arguments, 0, &mut context), Ok(Value::U32(1)));
    assert_eq!(
        resolve_argument(&arguments, 1, &mut context),
        Ok(Value::String("two".to_string()))
    );
    assert_eq!(
        resolve_argument(&arguments, 2, &mut context),
        Err(invalid("insufficient arguments"))
    );
}

#[test]
fn arguments_resolve_as_the_type_asked_for() {
    let mut context = Context::default();
    let arguments = [Expression::U32(1), text("two")];
    assert_eq!(arguments[..].resolve::<Value>(&mut context), Ok(Value::U32(1)));
    assert_eq!(arguments[..].resolve::<u32>(&mut context), Ok(1));
    assert_eq!(
        arguments[..].resolve::<(u32, String)>(&mut context),
        Ok((1, "two".to_string()))
    );
    assert_eq!(
        arguments[..].resolve::<String>(&mut context),
        Err(invalid("cannot resolve u32 value to string"))
    );
    assert_eq!(arguments[1..].resolve::<String>(&mut context), Ok("two".to_string()));
    assert_eq!(
        arguments[1..].resolve::<(u32, String)>(&mut context),
        Err(invalid("cannot resolve string value to u32"))
    );
    assert_eq!(
        arguments[..1].resolve::<(u32, String)>(&mut context),
        Err(invalid("insufficient arguments"))
    );
    assert_eq!(<u32 as FromArguments>::resolve(&arguments, &mut context), Ok(1));
}

#[test]
fn text_shows_without_surroundings() {
    let shown = SeString(vec![
        Segment::Text("x".to_string()),
        Segment::Payload { kind: Kind::TwoDigit, arguments: vec![Expression::U32(4)] },
    ]);
    assert_eq!(shown.to_text(), Ok("x04".to_string()));
}
