use pipeflow::datatype::{ColumnRef, DataTypeDate32, DataValue, TypeID};
use pipeflow::errors::ErrorCode;

#[test]
fn date32_identity() {
    let t = DataTypeDate32::arc();
    assert_eq!(t.data_type_id(), TypeID::Int32);
    assert_eq!(t.default_value(), DataValue::Int64(0));
}

#[test]
fn constant_column_from_integer_value() {
    let t = DataTypeDate32 {};
    let col = t.create_constant_column(&DataValue::Int64(19000), 3).unwrap();
    match col {
        ColumnRef::Int32(c) => {
            assert_eq!(c.len(), 3);
            assert_eq!(c.value_at(0), 19000);
            assert_eq!(c.value_at(2), 19000);
        }
        ColumnRef::NullInt32(_) => panic!("an integer value fills a value column"),
    }
}

#[test]
fn constant_column_from_other_value_is_null() {
    let t = DataTypeDate32 {};
    let col = t.create_constant_column(&DataValue::Null, 4).unwrap();
    match col {
        ColumnRef::NullInt32(n) => assert_eq!(n, 4),
        ColumnRef::Int32(_) => panic!("a non-integer value fills a null run"),
    }
    let col = t.create_constant_column(&DataValue::Boolean(true), 2).unwrap();
    assert!(matches!(col, ColumnRef::NullInt32(2)));
}

#[test]
fn date_serializer_renders_day_counts() {
    let s = DataTypeDate32 {}.create_serializer();
    assert_eq!(s.serialize_date_value(&DataValue::Int64(-3)).unwrap(), "-3");
    assert_eq!(s.serialize_date_value(&DataValue::Int64(19000)).unwrap(), "19000");
    assert_eq!(
        s.serialize_date_value(&DataValue::Boolean(false)),
        Err(ErrorCode::BadDataValueType)
    );
}

#[test]
fn date_serializer_renders_columns() {
    let t = DataTypeDate32 {};
    let s = t.create_serializer();
    let col = t.create_constant_column(&DataValue::Int64(5), 2).unwrap();
    assert_eq!(s.serialize_date_column(&col).unwrap(), vec!["5", "5"]);
    let nulls = t.create_constant_column(&DataValue::Null, 2).unwrap();
    assert_eq!(s.serialize_date_column(&nulls).unwrap(), vec!["NULL", "NULL"]);
}

#[test]
fn data_value_as_i64() {
    assert_eq!(DataValue::Int64(9).as_i64(), Ok(9));
    assert_eq!(DataValue::Null.as_i64(), Err(ErrorCode::BadDataValueType));
}

#[test]
fn error_messages_are_stable() {
    assert_eq!(ErrorCode::UnImplement.message(), "dictionary pages are not implemented");
    assert_eq!(ErrorCode::SendClosed.message(), "cannot publish frame: the channel is closed");
    assert_eq!(ErrorCode::ReadTableData.message(), "invalid table metadata");
}
