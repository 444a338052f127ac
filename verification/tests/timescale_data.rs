use roxide::timescale_data::{timescale_data, SerializedSource, TimescaleDataError};

#[test]
fn plans_time_then_components_of_each_field() {
    let names = Some(vec!["position".to_string(), "velocity".to_string()]);
    let plan = timescale_data(0, &names).ok().expect("accepted");
    assert_eq!(plan.field_count, 3);
    let keys: Vec<&str> = plan.fields.iter().map(|f| f.key.as_str()).collect();
    assert_eq!(keys, vec!["time", "position_x", "position_y", "position_z", "velocity_x", "velocity_y", "velocity_z"]);
    assert_eq!(plan.fields[0].source, SerializedSource::Time);
    assert_eq!(plan.fields[1].source, SerializedSource::Axis { field: 0, axis: 0 });
    assert_eq!(plan.fields[6].source, SerializedSource::Axis { field: 1, axis: 2 });
}

#[test]
fn struct_without_fields_serializes_time_only() {
    let plan = timescale_data(0, &Some(Vec::new())).ok().expect("accepted");
    assert_eq!(plan.field_count, 1);
    assert_eq!(plan.fields.len(), 1);
    assert_eq!(plan.fields[0].key, "time");
}

#[test]
fn rejects_arguments() {
    let r = timescale_data(2, &Some(vec!["a".to_string()]));
    assert!(matches!(r, Err(TimescaleDataError::UnexpectedArguments { count: 2 })));
    assert_eq!(
        TimescaleDataError::UnexpectedArguments { count: 2 }.message(),
        "this function takes 0 arguments but 2 arguments were supplied"
    );
    assert!(matches!(timescale_data(1, &None), Err(TimescaleDataError::UnexpectedArguments { count: 1 })));
}

#[test]
fn rejects_tuple_struct() {
    assert!(matches!(timescale_data(0, &None), Err(TimescaleDataError::UnnamedFields)));
    assert_eq!(TimescaleDataError::UnnamedFields.message(), "Structs must have named fields");
}

#[test]
fn keys_are_distinct() {
    let names = Some(vec!["time".to_string(), "a".to_string(), "a_x".to_string()]);
    let plan = timescale_data(0, &names).ok().expect("accepted");
    for i in 0..plan.fields.len() {
        for j in (i + 1)..plan.fields.len() {
            assert_ne!(plan.fields[i].key, plan.fields[j].key);
        }
    }
}
