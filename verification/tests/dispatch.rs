use schema_decoder::compile::{compile, Descriptor};
use schema_decoder::error::CompileError;
use schema_decoder::schema::{
    ExecutionTarget, FieldDefinition, ObjectFields, SchemaCatalog, TypeDefinition, TypeKind,
};

fn id_field() -> FieldDefinition {
    FieldDefinition { name: "id".to_string(), scalar: "ID".to_string(), nullable: false }
}

fn schema() -> SchemaCatalog {
    SchemaCatalog {
        namespace: "test".to_string(),
        objects: vec![ObjectFields { name: "A".to_string(), fields: vec![id_field()] }],
        target: ExecutionTarget::Sandboxed,
    }
}

#[test]
fn each_kind_goes_to_its_builder() {
    let object = TypeDefinition { name: "A".to_string(), kind: TypeKind::Object(vec![id_field()]) };
    match compile(&object, &schema()) {
        Ok(Descriptor::Entity(decoder)) => assert_eq!(decoder.name(), "A"),
        other => panic!("not an entity: {:?}", other),
    }
    let union = TypeDefinition { name: "U".to_string(), kind: TypeKind::Union(vec!["A".to_string()]) };
    match compile(&union, &schema()) {
        Ok(Descriptor::Entity(decoder)) => assert_eq!(decoder.fields().len(), 1),
        other => panic!("not an entity: {:?}", other),
    }
    let color = TypeDefinition { name: "Color".to_string(), kind: TypeKind::Enum(vec!["Red".to_string()]) };
    match compile(&color, &schema()) {
        Ok(Descriptor::Enum(decoder)) => assert_eq!(decoder.to_enum("Color::Red"), Ok("Red".to_string())),
        other => panic!("not an enum: {:?}", other),
    }
}

#[test]
fn dispatch_hands_on_the_error_of_the_builder() {
    let object = TypeDefinition { name: "Blob".to_string(), kind: TypeKind::Object(vec![id_field()]) };
    assert_eq!(
        compile(&object, &schema()),
        Err(CompileError::DisallowedTypeName { in_type: "Blob".to_string() })
    );
    let union = TypeDefinition { name: "U".to_string(), kind: TypeKind::Union(vec!["B".to_string()]) };
    assert_eq!(
        compile(&union, &schema()),
        Err(CompileError::MissingUnionMember { in_type: "U".to_string(), member: "B".to_string() })
    );
}
