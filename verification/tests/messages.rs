use schema_decoder::error::{list, CompileError, ConversionError};

#[test]
fn compile_errors_name_type_field_and_rule() {
    assert_eq!(
        CompileError::UnknownScalar {
            in_type: "Person".to_string(),
            field: "name".to_string(),
            scalar: "Text".to_string(),
        }
        .message(),
        "Field 'name' of type 'Person' has the unknown scalar 'Text'."
    );
    assert_eq!(
        CompileError::DisallowedTypeName { in_type: "UInt8".to_string() }.message(),
        "Type name 'UInt8' is reserved."
    );
    assert_eq!(
        CompileError::InconsistentUnionFieldType {
            in_type: "U".to_string(),
            field: "name".to_string(),
            member: "B".to_string(),
        }
        .message(),
        "Field 'name' of member 'B' conflicts with an earlier member of union 'U'."
    );
    assert_eq!(
        CompileError::MissingUnionMember { in_type: "U".to_string(), member: "C".to_string() }
            .message(),
        "Member 'C' of union 'U' is not in the schema."
    );
    assert_eq!(
        CompileError::WrongTypeKindForBuilder { in_type: "Color".to_string() }.message(),
        "Type 'Color' is not of a kind that this decoder builds."
    );
}

#[test]
fn conversion_error_names_the_value_and_what_was_expected() {
    assert_eq!(
        ConversionError::UnrecognizedVariant {
            value: "Color::Purple".to_string(),
            expected: vec!["Color::Red".to_string(), "Color::Green".to_string()],
        }
        .message(),
        "Unrecognized enum value 'Color::Purple'; expected one of: Color::Red, Color::Green."
    );
    assert_eq!(
        ConversionError::UnrecognizedVariant { value: "x".to_string(), expected: vec![] }.message(),
        "Unrecognized enum value 'x'; expected one of: ."
    );
}

#[test]
fn lists_are_separated_by_commas() {
    assert_eq!(list(&vec![]), "");
    assert_eq!(list(&vec!["a".to_string()]), "a");
    assert_eq!(list(&vec!["a".to_string(), "b".to_string(), "c".to_string()]), "a, b, c");
}
