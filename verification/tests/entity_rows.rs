use schema_decoder::error::{RecordError, RowError};
use schema_decoder::field::Column;
use schema_decoder::scalar::{ScalarType, Value};
use schema_decoder::schema::{
    ExecutionTarget, FieldDefinition, SchemaCatalog, TypeDefinition, TypeKind,
};
use schema_decoder::{Decoder, ObjectDecoder};

fn decoder_of(name: &str, fields: &[(&str, &str, bool)]) -> ObjectDecoder {
    let fields = fields
        .iter()
        .map(|(name, scalar, nullable)| FieldDefinition {
            name: name.to_string(),
            scalar: scalar.to_string(),
            nullable: *nullable,
        })
        .collect();
    let typdef = TypeDefinition { name: name.to_string(), kind: TypeKind::Object(fields) };
    let schema = SchemaCatalog {
        namespace: "test".to_string(),
        objects: vec![],
        target: ExecutionTarget::Native,
    };
    ObjectDecoder::from_typedef(&typdef, &schema).unwrap()
}

fn person() -> ObjectDecoder {
    decoder_of("Person", &[("id", "ID", false), ("name", "Charfield", false), ("age", "UInt1", true)])
}

fn account() -> ObjectDecoder {
    decoder_of(
        "Account",
        &[
            ("id", "ID", false),
            ("owner", "Address", false),
            ("balance", "UInt8", false),
            ("delta", "Int4", false),
            ("active", "Boolean", false),
            ("note", "Charfield", true),
        ],
    )
}

fn column(tag: ScalarType, value: Value) -> Column {
    Column { tag, value: Some(value) }
}

fn text(s: &str) -> Value {
    Value::Text(s.to_string())
}

#[test]
fn row_holds_one_tagged_column_per_field_in_order() {
    let record = vec![Value::Unsigned(5), text("Ann"), Value::Unsigned(7)];
    assert_eq!(
        person().to_row(&record),
        Ok(vec![
            column(ScalarType::Id, Value::Unsigned(5)),
            column(ScalarType::Charfield, text("Ann")),
            column(ScalarType::UInt1, Value::Unsigned(7)),
        ])
    );
}

#[test]
fn row_of_a_record_is_read_back_into_the_record() {
    let decoder = account();
    let record = vec![
        Value::Unsigned(u64::MAX as u128),
        Value::Bytes((0u8..32).collect()),
        Value::Unsigned(1000),
        Value::Signed(-2),
        Value::Boolean(true),
        text("hé"),
    ];
    let row = decoder.to_row(&record).unwrap();
    assert_eq!(decoder.from_row(&row), Ok(record));
}

#[test]
fn record_read_from_a_row_is_written_back_into_the_row() {
    let decoder = person();
    let row = vec![
        column(ScalarType::Id, Value::Unsigned(1)),
        column(ScalarType::Charfield, text("")),
        column(ScalarType::UInt1, Value::Unsigned(255)),
    ];
    let record = decoder.from_row(&row).unwrap();
    assert_eq!(decoder.to_row(&record), Ok(row));
}

#[test]
fn absent_value_of_a_nullable_field_reads_as_the_default() {
    let row = vec![
        column(ScalarType::Id, Value::Unsigned(1)),
        column(ScalarType::Charfield, text("Ann")),
        Column { tag: ScalarType::UInt1, value: None },
    ];
    assert_eq!(
        person().from_row(&row),
        Ok(vec![Value::Unsigned(1), text("Ann"), Value::Unsigned(0)])
    );
}

#[test]
fn absent_value_of_a_required_field_is_missing() {
    let row = vec![
        column(ScalarType::Id, Value::Unsigned(1)),
        Column { tag: ScalarType::Charfield, value: None },
        Column { tag: ScalarType::UInt1, value: None },
    ];
    assert_eq!(person().from_row(&row), Err(RowError::MissingValue { slot: 1 }));
}

#[test]
fn absent_identifier_is_missing() {
    let row = vec![
        Column { tag: ScalarType::Id, value: None },
        column(ScalarType::Charfield, text("Ann")),
        column(ScalarType::UInt1, Value::Unsigned(7)),
    ];
    assert_eq!(person().from_row(&row), Err(RowError::MissingValue { slot: 0 }));
}

#[test]
fn column_of_another_scalar_is_wrong() {
    let row = vec![
        column(ScalarType::Id, Value::Unsigned(1)),
        column(ScalarType::Json, text("Ann")),
        column(ScalarType::UInt4, Value::Unsigned(7)),
    ];
    assert_eq!(
        person().from_row(&row),
        Err(RowError::WrongColumn {
            slot: 1,
            expected: ScalarType::Charfield,
            found: ScalarType::Json,
        })
    );
}

#[test]
fn column_value_outside_its_scalar_is_malformed() {
    let row = vec![
        column(ScalarType::Id, Value::Unsigned(1)),
        column(ScalarType::Charfield, text("Ann")),
        column(ScalarType::UInt1, Value::Unsigned(256)),
    ];
    assert_eq!(person().from_row(&row), Err(RowError::MalformedValue { slot: 2 }));
    let row = vec![
        column(ScalarType::Id, Value::Text("1".to_string())),
        column(ScalarType::Charfield, text("Ann")),
        column(ScalarType::UInt1, Value::Unsigned(256)),
    ];
    assert_eq!(person().from_row(&row), Err(RowError::MalformedValue { slot: 0 }));
}

#[test]
fn row_with_another_number_of_columns_is_refused() {
    let row = vec![column(ScalarType::Id, Value::Unsigned(1))];
    assert_eq!(person().from_row(&row), Err(RowError::ColumnCount { fields: 3, columns: 1 }));
    assert_eq!(person().from_row(&vec![]), Err(RowError::ColumnCount { fields: 3, columns: 0 }));
}

#[test]
fn record_with_another_number_of_values_is_refused() {
    assert_eq!(
        person().to_row(&vec![Value::Unsigned(1)]),
        Err(RecordError::FieldCount { expected: 3, found: 1 })
    );
}

#[test]
fn record_value_outside_its_field_is_a_mismatch() {
    assert_eq!(
        person().to_row(&vec![Value::Unsigned(1), Value::Unsigned(2), Value::Unsigned(300)]),
        Err(RecordError::ValueMismatch { position: 1 })
    );
    assert_eq!(
        person().to_row(&vec![Value::Unsigned(1), text("Ann"), Value::Unsigned(300)]),
        Err(RecordError::ValueMismatch { position: 2 })
    );
}

#[test]
fn created_record_holds_the_identifier_derived_from_its_values() {
    let made = person().create(&vec![text("Ann"), Value::Unsigned(7)]).unwrap();
    assert_eq!(
        made,
        vec![Value::Unsigned(3299654381610641801), text("Ann"), Value::Unsigned(7)]
    );
    assert_eq!(person().identifier(&made), Some(3299654381610641801));
}

#[test]
fn creating_twice_from_the_same_values_gives_the_same_identifier() {
    let first = person().create(&vec![text("Ann"), Value::Unsigned(7)]).unwrap();
    let second = person().create(&vec![text("Ann"), Value::Unsigned(7)]).unwrap();
    assert_eq!(first[0], second[0]);
    assert_eq!(first, second);
}

#[test]
fn creating_from_other_values_gives_another_identifier() {
    let ann = person().create(&vec![text("Ann"), Value::Unsigned(7)]).unwrap();
    let bob = person().create(&vec![text("Bob"), Value::Unsigned(7)]).unwrap();
    assert_eq!(bob[0], Value::Unsigned(4087190904174462110));
    assert_ne!(ann[0], bob[0]);
}

#[test]
fn identifier_hashes_each_field_in_its_canonical_encoding() {
    let made = account()
        .create(&vec![
            Value::Bytes((0u8..32).collect()),
            Value::Unsigned(1000),
            Value::Signed(-2),
            Value::Boolean(true),
            text("hé"),
        ])
        .unwrap();
    assert_eq!(made[0], Value::Unsigned(12937712930544589759));
    assert_eq!(account().to_row(&made).map(|row| row.len()), Ok(6));
}

#[test]
fn create_refuses_values_that_do_not_fit_the_hashed_fields() {
    assert_eq!(
        person().create(&vec![text("Ann")]),
        Err(RecordError::FieldCount { expected: 2, found: 1 })
    );
    assert_eq!(
        person().create(&vec![Value::Unsigned(1), text("Ann"), Value::Unsigned(7)]),
        Err(RecordError::FieldCount { expected: 2, found: 3 })
    );
    assert_eq!(
        person().create(&vec![text("Ann"), Value::Unsigned(256)]),
        Err(RecordError::ValueMismatch { position: 1 })
    );
    assert_eq!(
        person().create(&vec![Value::Unsigned(7), text("Ann")]),
        Err(RecordError::ValueMismatch { position: 0 })
    );
}

#[test]
fn identifier_is_read_from_the_id_field() {
    let decoder = person();
    assert_eq!(decoder.identifier(&vec![Value::Unsigned(42), text("x"), Value::Unsigned(1)]), Some(42));
    assert_eq!(decoder.identifier(&vec![text("42"), text("x"), Value::Unsigned(1)]), None);
    assert_eq!(decoder.identifier(&vec![]), None);
    assert_eq!(
        decoder.identifier(&vec![Value::Unsigned(u64::MAX as u128 + 1), text("x"), Value::Unsigned(1)]),
        None
    );
    let point = decoder_of("Point", &[("x", "Int4", false)]);
    assert_eq!(point.identifier(&vec![Value::Signed(3)]), None);
}

#[test]
fn members_name_the_values_of_a_record() {
    let record = vec![Value::Unsigned(5), text("Ann"), Value::Unsigned(7)];
    assert_eq!(
        person().to_members(&record),
        Ok(vec![
            ("id".to_string(), Value::Unsigned(5)),
            ("name".to_string(), text("Ann")),
            ("age".to_string(), Value::Unsigned(7)),
        ])
    );
    assert_eq!(
        person().to_members(&vec![Value::Unsigned(5)]),
        Err(RecordError::FieldCount { expected: 3, found: 1 })
    );
    assert_eq!(
        person().to_members(&vec![Value::Unsigned(5), text("Ann"), text("7")]),
        Err(RecordError::ValueMismatch { position: 2 })
    );
}

#[test]
fn members_make_a_record_whatever_their_order() {
    let members = vec![
        ("age".to_string(), Value::Unsigned(7)),
        ("other".to_string(), Value::Boolean(true)),
        ("id".to_string(), Value::Unsigned(5)),
        ("name".to_string(), text("Ann")),
        ("name".to_string(), text("Bob")),
    ];
    assert_eq!(
        person().from_members(&members),
        Ok(vec![Value::Unsigned(5), text("Ann"), Value::Unsigned(7)])
    );
}

#[test]
fn members_of_a_record_make_the_record_again() {
    let decoder = account();
    let record = vec![
        Value::Unsigned(1),
        Value::Bytes(vec![7; 32]),
        Value::Unsigned(2),
        Value::Signed(-3),
        Value::Boolean(false),
        text("note"),
    ];
    let members = decoder.to_members(&record).unwrap();
    assert_eq!(decoder.from_members(&members), Ok(record));
}

#[test]
fn members_that_do_not_make_a_record_are_refused() {
    let members = vec![("id".to_string(), Value::Unsigned(5)), ("age".to_string(), Value::Unsigned(7))];
    assert_eq!(person().from_members(&members), Err(RecordError::MissingMember { position: 1 }));
    let members = vec![
        ("id".to_string(), Value::Unsigned(5)),
        ("name".to_string(), Value::Unsigned(1)),
        ("age".to_string(), Value::Unsigned(7)),
    ];
    assert_eq!(person().from_members(&members), Err(RecordError::ValueMismatch { position: 1 }));
    assert_eq!(person().from_members(&vec![]), Err(RecordError::MissingMember { position: 0 }));
}

#[test]
fn constructor_parameters_are_the_fields_other_than_id() {
    let parameters = person().constructor_parameters().unwrap();
    let names: Vec<(&str, ScalarType, bool)> =
        parameters.iter().map(|f| (f.name.as_str(), f.scalar, f.nullable)).collect();
    assert_eq!(
        names,
        vec![("name", ScalarType::Charfield, false), ("age", ScalarType::UInt1, true)]
    );
    let point = decoder_of("Point", &[("x", "Int4", false)]);
    assert_eq!(point.constructor_parameters(), None);
}
