use ironworks::search::{value_to_i64, value_to_term, value_to_u64, FieldKind, TermValue, Value};

#[test]
fn values_as_unsigned_integers() {
    assert_eq!(value_to_u64(&Value::U64(0)), Some(0));
    assert_eq!(value_to_u64(&Value::U64(u64::MAX)), Some(u64::MAX));
}

#[test]
fn values_as_signed_integers() {
    assert_eq!(value_to_i64(&Value::U64(0)), Some(0));
    assert_eq!(value_to_i64(&Value::U64(i64::MAX as u64)), Some(i64::MAX));
    assert_eq!(value_to_i64(&Value::U64(i64::MAX as u64 + 1)), None);
    assert_eq!(value_to_i64(&Value::U64(u64::MAX)), None);
}

#[test]
fn terms_take_the_kind_of_their_field() {
    assert_eq!(value_to_term(FieldKind::U64, &Value::U64(7)), Some(TermValue::U64(7)));
    assert_eq!(value_to_term(FieldKind::I64, &Value::U64(7)), Some(TermValue::I64(7)));
    assert_eq!(
        value_to_term(FieldKind::U64, &Value::U64(u64::MAX)),
        Some(TermValue::U64(u64::MAX))
    );
    assert_eq!(value_to_term(FieldKind::I64, &Value::U64(u64::MAX)), None);
}
