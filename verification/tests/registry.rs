use schema_decoder::decode::is_reserved_type_name;
use schema_decoder::encoding::{decode_le, encode_le};
use schema_decoder::error::{RecordError, RowError};
use schema_decoder::field::{is_id_name, translate, Column, FieldDescriptor, RowEncoder, RowExtractor};
use schema_decoder::scalar::{CloneStrategy, NativeRepr, ScalarType, UnknownScalar, Value, Width};
use schema_decoder::schema::FieldDefinition;
use schema_decoder::text::{join, str_eq};

const ALL: [ScalarType; 22] = [
    ScalarType::Id,
    ScalarType::UInt1,
    ScalarType::UInt4,
    ScalarType::UInt8,
    ScalarType::UInt16,
    ScalarType::Int1,
    ScalarType::Int4,
    ScalarType::Int8,
    ScalarType::Int16,
    ScalarType::Boolean,
    ScalarType::Charfield,
    ScalarType::Json,
    ScalarType::Bytes4,
    ScalarType::Bytes8,
    ScalarType::Bytes32,
    ScalarType::Bytes64,
    ScalarType::Address,
    ScalarType::AssetId,
    ScalarType::ContractId,
    ScalarType::Salt,
    ScalarType::Blob,
    ScalarType::HexString,
];

#[test]
fn every_scalar_is_found_under_its_name() {
    for scalar in ALL {
        assert_eq!(ScalarType::resolve(scalar.name()), Ok(scalar));
    }
}

#[test]
fn scalar_names_are_those_of_the_schema_language() {
    assert_eq!(ScalarType::resolve("ID"), Ok(ScalarType::Id));
    assert_eq!(ScalarType::resolve("Charfield"), Ok(ScalarType::Charfield));
    assert_eq!(ScalarType::resolve("UInt1"), Ok(ScalarType::UInt1));
    assert_eq!(ScalarType::resolve("UInt16"), Ok(ScalarType::UInt16));
    assert_eq!(ScalarType::resolve("Int8"), Ok(ScalarType::Int8));
    assert_eq!(ScalarType::resolve("Address"), Ok(ScalarType::Address));
    assert_eq!(ScalarType::resolve("HexString"), Ok(ScalarType::HexString));
}

#[test]
fn unregistered_name_is_an_unknown_scalar() {
    assert_eq!(
        ScalarType::resolve("String"),
        Err(UnknownScalar { scalar: "String".to_string() })
    );
    assert_eq!(ScalarType::resolve("id"), Err(UnknownScalar { scalar: "id".to_string() }));
    assert_eq!(ScalarType::resolve(""), Err(UnknownScalar { scalar: String::new() }));
    assert_eq!(ScalarType::resolve("UInt"), Err(UnknownScalar { scalar: "UInt".to_string() }));
    assert_eq!(ScalarType::resolve("UInt12"), Err(UnknownScalar { scalar: "UInt12".to_string() }));
}

#[test]
fn native_representations_of_the_scalars() {
    assert_eq!(ScalarType::Id.native_repr(), NativeRepr::Unsigned(Width::W8));
    assert_eq!(ScalarType::UInt1.native_repr(), NativeRepr::Unsigned(Width::W1));
    assert_eq!(ScalarType::UInt16.native_repr(), NativeRepr::Unsigned(Width::W16));
    assert_eq!(ScalarType::Int4.native_repr(), NativeRepr::Signed(Width::W4));
    assert_eq!(ScalarType::Boolean.native_repr(), NativeRepr::Boolean);
    assert_eq!(ScalarType::Charfield.native_repr(), NativeRepr::Text);
    assert_eq!(ScalarType::Bytes4.native_repr(), NativeRepr::FixedBytes(4));
    assert_eq!(ScalarType::Bytes64.native_repr(), NativeRepr::FixedBytes(64));
    assert_eq!(ScalarType::Address.native_repr(), NativeRepr::FixedBytes(32));
    assert_eq!(ScalarType::Blob.native_repr(), NativeRepr::Bytes);
}

#[test]
fn clone_strategy_is_clone_for_what_owns_memory() {
    assert_eq!(ScalarType::UInt8.clone_strategy(), CloneStrategy::Copy);
    assert_eq!(ScalarType::Boolean.clone_strategy(), CloneStrategy::Copy);
    assert_eq!(ScalarType::Address.clone_strategy(), CloneStrategy::Copy);
    assert_eq!(ScalarType::Charfield.clone_strategy(), CloneStrategy::Clone);
    assert_eq!(ScalarType::Blob.clone_strategy(), CloneStrategy::Clone);
}

#[test]
fn default_values_of_the_scalars() {
    assert_eq!(ScalarType::UInt4.default_value(), Value::Unsigned(0));
    assert_eq!(ScalarType::Int16.default_value(), Value::Signed(0));
    assert_eq!(ScalarType::Boolean.default_value(), Value::Boolean(false));
    assert_eq!(ScalarType::Charfield.default_value(), Value::Text(String::new()));
    assert_eq!(ScalarType::Bytes4.default_value(), Value::Bytes(vec![0, 0, 0, 0]));
    assert_eq!(ScalarType::Address.default_value(), Value::Bytes(vec![0; 32]));
    assert_eq!(ScalarType::Blob.default_value(), Value::Bytes(vec![]));
}

#[test]
fn every_default_value_is_in_its_value_space() {
    for scalar in ALL {
        assert!(scalar.native_repr().accepts(&scalar.default_value()));
    }
}

#[test]
fn value_spaces_are_bounded_by_the_width() {
    let byte = NativeRepr::Unsigned(Width::W1);
    assert!(byte.accepts(&Value::Unsigned(255)));
    assert!(!byte.accepts(&Value::Unsigned(256)));
    assert!(!byte.accepts(&Value::Signed(1)));
    assert!(NativeRepr::Unsigned(Width::W4).accepts(&Value::Unsigned(u32::MAX as u128)));
    assert!(!NativeRepr::Unsigned(Width::W4).accepts(&Value::Unsigned(u32::MAX as u128 + 1)));
    assert!(NativeRepr::Unsigned(Width::W8).accepts(&Value::Unsigned(u64::MAX as u128)));
    assert!(!NativeRepr::Unsigned(Width::W8).accepts(&Value::Unsigned(u64::MAX as u128 + 1)));
    assert!(NativeRepr::Unsigned(Width::W16).accepts(&Value::Unsigned(u128::MAX)));
    let small = NativeRepr::Signed(Width::W1);
    assert!(small.accepts(&Value::Signed(-128)));
    assert!(small.accepts(&Value::Signed(127)));
    assert!(!small.accepts(&Value::Signed(-129)));
    assert!(!small.accepts(&Value::Signed(128)));
    assert!(NativeRepr::Signed(Width::W8).accepts(&Value::Signed(i64::MIN as i128)));
    assert!(!NativeRepr::Signed(Width::W8).accepts(&Value::Signed(i64::MIN as i128 - 1)));
    assert!(NativeRepr::Signed(Width::W16).accepts(&Value::Signed(i128::MIN)));
    assert!(NativeRepr::FixedBytes(4).accepts(&Value::Bytes(vec![1, 2, 3, 4])));
    assert!(!NativeRepr::FixedBytes(4).accepts(&Value::Bytes(vec![1, 2, 3])));
    assert!(NativeRepr::Bytes.accepts(&Value::Bytes(vec![1, 2, 3])));
    assert!(!NativeRepr::Text.accepts(&Value::Bytes(vec![])));
    assert!(!NativeRepr::Boolean.accepts(&Value::Unsigned(1)));
}

#[test]
fn width_bounds() {
    assert_eq!(Width::W1.bytes(), 1);
    assert_eq!(Width::W4.bytes(), 4);
    assert_eq!(Width::W8.bytes(), 8);
    assert_eq!(Width::W16.bytes(), 16);
    assert_eq!(Width::W4.max_unsigned(), u32::MAX as u128);
    assert_eq!(Width::W16.max_unsigned(), u128::MAX);
    assert_eq!(Width::W4.max_signed(), i32::MAX as i128);
    assert_eq!(Width::W4.min_signed(), i32::MIN as i128);
    assert_eq!(Width::W16.min_signed(), i128::MIN);
}

#[test]
fn integers_encode_little_endian_at_their_width() {
    assert_eq!(ScalarType::UInt1.encode(&Value::Unsigned(7)), Some(vec![7]));
    assert_eq!(ScalarType::UInt4.encode(&Value::Unsigned(0x01020304)), Some(vec![4, 3, 2, 1]));
    assert_eq!(
        ScalarType::UInt8.encode(&Value::Unsigned(1000)),
        Some(1000u64.to_le_bytes().to_vec())
    );
    assert_eq!(ScalarType::Id.encode(&Value::Unsigned(1)), Some(vec![1, 0, 0, 0, 0, 0, 0, 0]));
    assert_eq!(
        ScalarType::UInt16.encode(&Value::Unsigned(u128::MAX - 1)),
        Some((u128::MAX - 1).to_le_bytes().to_vec())
    );
}

#[test]
fn signed_integers_encode_in_twos_complement() {
    assert_eq!(ScalarType::Int1.encode(&Value::Signed(-1)), Some(vec![255]));
    assert_eq!(ScalarType::Int1.encode(&Value::Signed(-128)), Some(vec![128]));
    assert_eq!(ScalarType::Int4.encode(&Value::Signed(-2)), Some(vec![254, 255, 255, 255]));
    assert_eq!(ScalarType::Int4.encode(&Value::Signed(5)), Some(vec![5, 0, 0, 0]));
    assert_eq!(
        ScalarType::Int8.encode(&Value::Signed(i64::MIN as i128)),
        Some(i64::MIN.to_le_bytes().to_vec())
    );
    assert_eq!(
        ScalarType::Int16.encode(&Value::Signed(-129)),
        Some((-129i128).to_le_bytes().to_vec())
    );
    assert_eq!(
        ScalarType::Int16.encode(&Value::Signed(i128::MIN)),
        Some(i128::MIN.to_le_bytes().to_vec())
    );
}

#[test]
fn other_values_encode_as_their_bytes() {
    assert_eq!(ScalarType::Boolean.encode(&Value::Boolean(true)), Some(vec![1]));
    assert_eq!(ScalarType::Boolean.encode(&Value::Boolean(false)), Some(vec![0]));
    assert_eq!(
        ScalarType::Charfield.encode(&Value::Text("hé".to_string())),
        Some(vec![104, 195, 169])
    );
    assert_eq!(ScalarType::Charfield.encode(&Value::Text(String::new())), Some(vec![]));
    assert_eq!(ScalarType::Bytes4.encode(&Value::Bytes(vec![9, 8, 7, 6])), Some(vec![9, 8, 7, 6]));
    assert_eq!(ScalarType::Blob.encode(&Value::Bytes(vec![1, 2])), Some(vec![1, 2]));
}

#[test]
fn value_outside_the_value_space_has_no_encoding() {
    assert_eq!(ScalarType::UInt1.encode(&Value::Unsigned(256)), None);
    assert_eq!(ScalarType::UInt1.encode(&Value::Signed(1)), None);
    assert_eq!(ScalarType::Int1.encode(&Value::Signed(128)), None);
    assert_eq!(ScalarType::Bytes4.encode(&Value::Bytes(vec![1])), None);
    assert_eq!(ScalarType::Charfield.encode(&Value::Boolean(true)), None);
}

#[test]
fn little_endian_helpers() {
    assert_eq!(encode_le(0x0102, 2), vec![2, 1]);
    assert_eq!(encode_le(0x0102, 1), vec![2]);
    assert_eq!(encode_le(7, 0), Vec::<u8>::new());
    assert_eq!(encode_le(1, 17), {
        let mut bytes = vec![0u8; 17];
        bytes[0] = 1;
        bytes
    });
    assert_eq!(decode_le(&[2, 1]), 0x0102);
    assert_eq!(decode_le(&[]), 0);
    assert_eq!(decode_le(&[255; 8]), u64::MAX);
    assert_eq!(decode_le(&encode_le(123456789, 8)), 123456789);
}

#[test]
fn texts_compare_and_join() {
    assert!(str_eq("id", "id"));
    assert!(str_eq("", ""));
    assert!(!str_eq("id", "ID"));
    assert!(!str_eq("id", "idx"));
    assert!(!str_eq("é", "e"));
    assert_eq!(join("test", ".", "Person"), "test.Person");
    assert_eq!(join("", "::", ""), "::");
    assert!(is_id_name("id"));
    assert!(!is_id_name("Id"));
    assert!(!is_id_name("ident"));
}

#[test]
fn translation_yields_typed_field_extractor_and_encoder() {
    let declared = FieldDefinition {
        name: "name".to_string(),
        scalar: "Charfield".to_string(),
        nullable: true,
    };
    assert_eq!(
        translate("Person", &declared, 3),
        Ok((
            FieldDescriptor { name: "name".to_string(), scalar: ScalarType::Charfield, nullable: true },
            RowExtractor { slot: 3, scalar: ScalarType::Charfield, nullable: true },
            RowEncoder { slot: 3, scalar: ScalarType::Charfield, strategy: CloneStrategy::Clone },
        ))
    );
}

#[test]
fn extractor_inverts_encoder_over_its_slot() {
    let encoder = RowEncoder { slot: 0, scalar: ScalarType::Int4, strategy: CloneStrategy::Copy };
    let extractor = RowExtractor { slot: 0, scalar: ScalarType::Int4, nullable: false };
    let column = encoder.encode(&Value::Signed(-7)).unwrap();
    assert_eq!(column, Column { tag: ScalarType::Int4, value: Some(Value::Signed(-7)) });
    assert_eq!(extractor.extract(&column), Ok(Value::Signed(-7)));
    assert_eq!(
        encoder.encode(&Value::Unsigned(7)),
        Err(RecordError::ValueMismatch { position: 0 })
    );
    assert_eq!(
        extractor.extract(&Column { tag: ScalarType::Int4, value: None }),
        Err(RowError::MissingValue { slot: 0 })
    );
}

#[test]
fn reserved_type_names_are_scalars_and_root_operations() {
    for scalar in ALL {
        assert!(is_reserved_type_name(scalar.name()));
    }
    assert!(is_reserved_type_name("Query"));
    assert!(is_reserved_type_name("Mutation"));
    assert!(is_reserved_type_name("Subscription"));
    assert!(!is_reserved_type_name("Person"));
    assert!(!is_reserved_type_name("query"));
    assert!(!is_reserved_type_name(""));
}

#[test]
fn same_encoding_means_same_value() {
    let values = [-3i128, -2, -1, 0, 1, 2, 127, -128];
    for a in values {
        for b in values {
            let same = ScalarType::Int1.encode(&Value::Signed(a)) == ScalarType::Int1.encode(&Value::Signed(b));
            assert_eq!(same, a == b);
        }
    }
}
