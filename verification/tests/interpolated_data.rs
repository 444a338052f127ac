use roxide::interpolated_data::{
    interpolated_data, read_rename, AttributeItem, AttributeProblem, DeriveError, FieldInput, FieldsInput, InterpolatedRegistry, RenameArgs, StructInput,
};

fn field(name: &str, ty: Option<&str>, args: RenameArgs) -> FieldInput {
    FieldInput { name: name.to_string(), path_type: ty.map(|t| t.to_string()), args }
}

fn engine(fields: Vec<FieldInput>) -> StructInput {
    StructInput {
        ident: "RocketEngine".to_string(),
        args: RenameArgs::Rename("Time (N)".to_string()),
        fields: FieldsInput::Named(fields),
    }
}

#[test]
fn records_fields_of_one_type() {
    let input = engine(vec![
        field("thrust", Some("f64"), RenameArgs::Rename("Thrust (N)".to_string())),
        field("mass", Some("f64"), RenameArgs::Absent),
    ]);
    let data = match interpolated_data(&input) {
        Ok(data) => data,
        Err(_) => panic!("the struct is accepted"),
    };
    assert_eq!(data.ty, "f64");
    assert_eq!(data.rename, Some("Time (N)".to_string()));
    assert_eq!(data.fields.len(), 2);
    assert_eq!(data.fields[0].name, "thrust");
    assert_eq!(data.fields[0].rename, Some("Thrust (N)".to_string()));
    assert_eq!(data.fields[1].name, "mass");
    assert_eq!(data.fields[1].rename, None);
}

#[test]
fn passes_over_fields_without_path_type() {
    let input = engine(vec![
        field("samples", None, RenameArgs::Invalid("not read".to_string())),
        field("thrust", Some("f32"), RenameArgs::Absent),
        field("pair", None, RenameArgs::Absent),
    ]);
    match interpolated_data(&input) {
        Ok(data) => {
            assert_eq!(data.ty, "f32");
            assert_eq!(data.fields.len(), 1);
            assert_eq!(data.fields[0].name, "thrust");
        }
        Err(_) => panic!("the struct is accepted"),
    }
}

#[test]
fn rejects_mixed_field_types() {
    let input = engine(vec![
        field("thrust", Some("f64"), RenameArgs::Absent),
        field("mass", Some("f64"), RenameArgs::Absent),
        field("burn", Some("f32"), RenameArgs::Absent),
    ]);
    match interpolated_data(&input) {
        Err(e @ DeriveError::MixedFieldTypes { .. }) => {
            if let DeriveError::MixedFieldTypes { index, first, found } = &e {
                assert_eq!(*index, 2);
                assert_eq!(first, "f64");
                assert_eq!(found, "f32");
            }
            assert_eq!(e.message(), "all fields in the struct must be the same type, found types f64 and f32");
        }
        _ => panic!("mixed types are rejected"),
    }
}

#[test]
fn rejects_struct_without_path_typed_fields() {
    let input = engine(vec![field("pair", None, RenameArgs::Absent)]);
    match interpolated_data(&input) {
        Err(e @ DeriveError::NoFields) => assert_eq!(e.message(), "struct must contain one or more fields"),
        _ => panic!("no fields"),
    }
    match interpolated_data(&engine(Vec::new())) {
        Err(DeriveError::NoFields) => {}
        _ => panic!("no fields"),
    }
}

#[test]
fn rejects_unnamed_fields() {
    let input = StructInput { ident: "Tuple".to_string(), args: RenameArgs::Invalid("bad".to_string()), fields: FieldsInput::Unnamed };
    match interpolated_data(&input) {
        Err(e @ DeriveError::UnnamedFields) => assert_eq!(e.message(), "struct must have named fields"),
        _ => panic!("unnamed fields"),
    }
}

#[test]
fn reports_unreadable_attributes() {
    let mut input = engine(vec![field("thrust", Some("f64"), RenameArgs::Absent)]);
    input.args = RenameArgs::Invalid("expected `rename`".to_string());
    match interpolated_data(&input) {
        Err(e @ DeriveError::InvalidAttribute { field: None, .. }) => assert_eq!(e.message(), "expected `rename`"),
        _ => panic!("struct attribute"),
    }
    let input = engine(vec![
        field("thrust", Some("f64"), RenameArgs::Absent),
        field("mass", Some("f32"), RenameArgs::Invalid("bad field attribute".to_string())),
    ]);
    match interpolated_data(&input) {
        Err(DeriveError::InvalidAttribute { field: Some(1), message }) => assert_eq!(message, "bad field attribute"),
        _ => panic!("field attribute comes before the type check"),
    }
}

#[test]
fn derive_registers_accepted_struct() {
    let mut registry = InterpolatedRegistry::new();
    assert!(registry.lookup("RocketEngine").is_none());
    let input = engine(vec![field("thrust", Some("f64"), RenameArgs::Absent)]);
    assert!(roxide::interpolated_data::derive(&input, &mut registry).is_ok());
    let data = registry.lookup("RocketEngine").expect("registered");
    assert_eq!(data.ty, "f64");
    assert!(registry.lookup("Other").is_none());
}

#[test]
fn derive_replaces_earlier_entry_and_keeps_others() {
    let mut registry = InterpolatedRegistry::new();
    let mut other = engine(vec![field("x", Some("u8"), RenameArgs::Absent)]);
    other.ident = "Other".to_string();
    assert!(roxide::interpolated_data::derive(&other, &mut registry).is_ok());
    assert!(roxide::interpolated_data::derive(&engine(vec![field("thrust", Some("f64"), RenameArgs::Absent)]), &mut registry).is_ok());
    assert!(roxide::interpolated_data::derive(&engine(vec![field("thrust", Some("f32"), RenameArgs::Absent)]), &mut registry).is_ok());
    assert_eq!(registry.lookup("RocketEngine").expect("registered").ty, "f32");
    assert_eq!(registry.lookup("Other").expect("registered").ty, "u8");
}

#[test]
fn rejected_derive_leaves_registry_alone() {
    let mut registry = InterpolatedRegistry::new();
    assert!(roxide::interpolated_data::derive(&engine(vec![field("thrust", Some("f64"), RenameArgs::Absent)]), &mut registry).is_ok());
    let bad = engine(vec![field("a", Some("f64"), RenameArgs::Absent), field("b", Some("u8"), RenameArgs::Absent)]);
    assert!(roxide::interpolated_data::derive(&bad, &mut registry).is_err());
    assert_eq!(registry.lookup("RocketEngine").expect("kept").ty, "f64");
}

#[test]
fn last_rename_is_read() {
    assert_eq!(read_rename(&Vec::new()), Ok(None));
    let items = vec![AttributeItem::Rename("Thrust".to_string()), AttributeItem::Rename("Thrust (N)".to_string())];
    assert_eq!(read_rename(&items), Ok(Some("Thrust (N)".to_string())));
}

#[test]
fn first_unreadable_attribute_item_is_reported() {
    let items = vec![
        AttributeItem::Rename("Thrust".to_string()),
        AttributeItem::Unexpected,
        AttributeItem::RenameNotString,
    ];
    assert_eq!(read_rename(&items), Err((1, AttributeProblem::ExpectedRename)));
    assert_eq!(read_rename(&vec![AttributeItem::RenameNotString]), Err((0, AttributeProblem::ExpectedString)));
    assert_eq!(read_rename(&vec![AttributeItem::NotList]), Err((0, AttributeProblem::ExpectedList)));
    assert_eq!(AttributeProblem::ExpectedString.message(), "expected a string");
    assert_eq!(AttributeProblem::ExpectedRename.message(), "expected `rename = \"...\"`");
    assert_eq!(AttributeProblem::ExpectedList.message(), "expected `timescale(rename = \"...\")`");
}
