use schema_decoder::error::{CompileError, RecordError};
use schema_decoder::field::{FieldDescriptor, RowEncoder, RowExtractor};
use schema_decoder::scalar::{CloneStrategy, ScalarType, Value};
use schema_decoder::schema::{
    ExecutionTarget, FieldDefinition, SchemaCatalog, TypeDefinition, TypeKind,
};
use schema_decoder::{Decoder, ObjectDecoder};

fn field(name: &str, scalar: &str, nullable: bool) -> FieldDefinition {
    FieldDefinition { name: name.to_string(), scalar: scalar.to_string(), nullable }
}

fn catalog(namespace: &str, target: ExecutionTarget) -> SchemaCatalog {
    SchemaCatalog { namespace: namespace.to_string(), objects: vec![], target }
}

fn person() -> TypeDefinition {
    let fields = [("id", "ID"), ("name", "Charfield"), ("age", "UInt1")]
        .iter()
        .map(|(name, typ)| field(name, typ, false))
        .collect::<Vec<FieldDefinition>>();
    TypeDefinition { name: "Person".to_string(), kind: TypeKind::Object(fields) }
}

fn typed(name: &str, scalar: ScalarType, nullable: bool) -> FieldDescriptor {
    FieldDescriptor { name: name.to_string(), scalar, nullable }
}

#[test]
fn test_can_create_object_decoder_containing_expected_tokens_from_object_typedef() {
    let typdef = person();
    let schema = catalog("test", ExecutionTarget::Sandboxed);

    let decoder = ObjectDecoder::from_typedef(&typdef, &schema).unwrap();

    // The entity is the struct `Person` with its three fields.
    assert_eq!(decoder.name(), "Person");
    assert_eq!(
        decoder.fields(),
        &vec![
            typed("id", ScalarType::Id, false),
            typed("name", ScalarType::Charfield, false),
            typed("age", ScalarType::UInt1, false),
        ]
    );
    // The constructor takes `name: Charfield` and `age: UInt1`, in this order.
    assert_eq!(
        decoder.identifier_spec(),
        Some(&vec!["name".to_string(), "age".to_string()])
    );
    let made = decoder
        .create(&vec![Value::Text("Ann".to_string()), Value::Unsigned(7)])
        .unwrap();
    assert_eq!(made.len(), 3);
    assert_eq!(made[1], Value::Text("Ann".to_string()));
    assert_eq!(made[2], Value::Unsigned(7));
    // Get-or-create keeps a stored instance and else saves the record.
    let (kept, save) = ObjectDecoder::get_or_create(made.clone(), None);
    assert_eq!(kept, made);
    assert!(save);
    // A row is read back into the record it was written from.
    let row = decoder.to_row(&made).unwrap();
    assert_eq!(row.len(), 3);
    assert_eq!(decoder.from_row(&row), Ok(made));
}

#[test]
fn person_descriptor_has_fields_identifier_spec_and_type_id() {
    let decoder =
        ObjectDecoder::from_typedef(&person(), &catalog("test", ExecutionTarget::Native)).unwrap();
    let names: Vec<&str> = decoder.fields().iter().map(|f| f.name.as_str()).collect();
    assert_eq!(names, vec!["id", "name", "age"]);
    assert_eq!(
        decoder.identifier_spec(),
        Some(&vec!["name".to_string(), "age".to_string()])
    );
    assert_eq!(decoder.type_id(), 7499519712500934922);
    assert_eq!(decoder.type_id(), schema_decoder::digest::type_id("test", "Person"));
    assert_eq!(decoder.execution_target(), ExecutionTarget::Native);
}

#[test]
fn extractors_come_last_slot_first_and_encoders_in_order() {
    let decoder =
        ObjectDecoder::from_typedef(&person(), &catalog("test", ExecutionTarget::Native)).unwrap();
    assert_eq!(
        decoder.extractors(),
        &vec![
            RowExtractor { slot: 2, scalar: ScalarType::UInt1, nullable: false },
            RowExtractor { slot: 1, scalar: ScalarType::Charfield, nullable: false },
            RowExtractor { slot: 0, scalar: ScalarType::Id, nullable: false },
        ]
    );
    assert_eq!(
        decoder.encoders(),
        &vec![
            RowEncoder { slot: 0, scalar: ScalarType::Id, strategy: CloneStrategy::Copy },
            RowEncoder { slot: 1, scalar: ScalarType::Charfield, strategy: CloneStrategy::Clone },
            RowEncoder { slot: 2, scalar: ScalarType::UInt1, strategy: CloneStrategy::Copy },
        ]
    );
}

#[test]
fn id_field_is_a_required_identifier_whatever_was_declared() {
    let typdef = TypeDefinition {
        name: "Thing".to_string(),
        kind: TypeKind::Object(vec![field("id", "NoSuchScalar", true), field("size", "UInt8", true)]),
    };
    let decoder =
        ObjectDecoder::from_typedef(&typdef, &catalog("test", ExecutionTarget::Sandboxed)).unwrap();
    assert_eq!(
        decoder.fields(),
        &vec![typed("id", ScalarType::Id, false), typed("size", ScalarType::UInt8, true)]
    );
}

#[test]
fn object_without_id_has_no_identifier_spec() {
    let typdef = TypeDefinition {
        name: "Point".to_string(),
        kind: TypeKind::Object(vec![field("x", "Int4", false), field("y", "Int4", false)]),
    };
    let decoder =
        ObjectDecoder::from_typedef(&typdef, &catalog("test", ExecutionTarget::Sandboxed)).unwrap();
    assert_eq!(decoder.identifier_spec(), None);
    assert_eq!(
        decoder.create(&vec![Value::Signed(1), Value::Signed(2)]),
        Err(RecordError::NoIdentifier)
    );
}

#[test]
fn id_field_in_the_middle_keeps_its_place() {
    let typdef = TypeDefinition {
        name: "Pair".to_string(),
        kind: TypeKind::Object(vec![
            field("left", "UInt4", false),
            field("id", "ID", false),
            field("right", "UInt4", false),
        ]),
    };
    let decoder =
        ObjectDecoder::from_typedef(&typdef, &catalog("test", ExecutionTarget::Sandboxed)).unwrap();
    assert_eq!(
        decoder.identifier_spec(),
        Some(&vec!["left".to_string(), "right".to_string()])
    );
    let made = decoder.create(&vec![Value::Unsigned(1), Value::Unsigned(2)]).unwrap();
    assert_eq!(made[0], Value::Unsigned(1));
    assert_eq!(made[2], Value::Unsigned(2));
    assert_eq!(decoder.identifier(&made), Some(schema_decoder::digest::derive_id(&[1, 0, 0, 0, 2, 0, 0, 0])));
}

#[test]
fn unknown_scalar_is_reported_for_the_first_such_field() {
    let typdef = TypeDefinition {
        name: "Person".to_string(),
        kind: TypeKind::Object(vec![
            field("id", "ID", false),
            field("name", "Text", false),
            field("age", "Number", false),
        ]),
    };
    assert_eq!(
        ObjectDecoder::from_typedef(&typdef, &catalog("test", ExecutionTarget::Sandboxed)),
        Err(CompileError::UnknownScalar {
            in_type: "Person".to_string(),
            field: "name".to_string(),
            scalar: "Text".to_string(),
        })
    );
}

#[test]
fn reserved_type_names_are_disallowed() {
    for name in ["UInt8", "ID", "Charfield", "Query", "Mutation", "Subscription"] {
        let typdef = TypeDefinition {
            name: name.to_string(),
            kind: TypeKind::Object(vec![field("id", "ID", false)]),
        };
        assert_eq!(
            ObjectDecoder::from_typedef(&typdef, &catalog("test", ExecutionTarget::Sandboxed)),
            Err(CompileError::DisallowedTypeName { in_type: name.to_string() })
        );
    }
}

#[test]
fn object_decoder_rejects_an_enum() {
    let typdef = TypeDefinition {
        name: "Color".to_string(),
        kind: TypeKind::Enum(vec!["Red".to_string()]),
    };
    assert_eq!(
        ObjectDecoder::from_typedef(&typdef, &catalog("test", ExecutionTarget::Sandboxed)),
        Err(CompileError::WrongTypeKindForBuilder { in_type: "Color".to_string() })
    );
}

#[test]
fn object_without_fields_compiles_to_an_empty_descriptor() {
    let typdef = TypeDefinition { name: "Empty".to_string(), kind: TypeKind::Object(vec![]) };
    let decoder =
        ObjectDecoder::from_typedef(&typdef, &catalog("test", ExecutionTarget::Sandboxed)).unwrap();
    assert!(decoder.fields().is_empty());
    assert!(decoder.extractors().is_empty());
    assert!(decoder.encoders().is_empty());
    assert_eq!(decoder.identifier_spec(), None);
    assert_eq!(decoder.to_row(&vec![]), Ok(vec![]));
    assert_eq!(decoder.from_row(&vec![]), Ok(vec![]));
}

#[test]
fn default_decoder_is_empty_and_sandboxed() {
    let decoder = ObjectDecoder::default();
    assert_eq!(decoder.name(), "ObjectDecoder");
    assert!(decoder.fields().is_empty());
    assert!(decoder.extractors().is_empty());
    assert!(decoder.encoders().is_empty());
    assert_eq!(decoder.identifier_spec(), None);
    assert_eq!(decoder.execution_target(), ExecutionTarget::Sandboxed);
    assert_eq!(decoder.type_id(), i64::MAX);
}

#[test]
fn same_name_in_two_namespaces_gets_two_type_ids() {
    let first =
        ObjectDecoder::from_typedef(&person(), &catalog("test", ExecutionTarget::Native)).unwrap();
    let second =
        ObjectDecoder::from_typedef(&person(), &catalog("other", ExecutionTarget::Native)).unwrap();
    assert_eq!(first.type_id(), 7499519712500934922);
    assert_eq!(second.type_id(), 9088309715606756489);
    assert_ne!(first.type_id(), second.type_id());
}

#[test]
fn compiling_twice_gives_the_same_descriptor() {
    let schema = catalog("test", ExecutionTarget::Native);
    assert_eq!(
        ObjectDecoder::from_typedef(&person(), &schema),
        ObjectDecoder::from_typedef(&person(), &schema)
    );
}
