use io_plugin::schema::{
    collapse_return, example_schema, generate_interface, pascal_to_snake, GenError, ReturnShape,
};
use io_plugin::value::FieldType;

#[test]
fn method_names_are_snake_case() {
    assert_eq!(pascal_to_snake("GetName"), "get_name");
    assert_eq!(pascal_to_snake("SetRounding"), "set_rounding");
    assert_eq!(pascal_to_snake("FloatOp"), "float_op");
    assert_eq!(pascal_to_snake("RandomBytes"), "random_bytes");
    assert_eq!(pascal_to_snake("Op"), "op");
    assert_eq!(pascal_to_snake("already_snake"), "already_snake");
}

#[test]
fn consistent_schema_yields_one_method_and_arm_per_operation() {
    let (names, requests, responses) = example_schema();
    let iface = generate_interface(&names, requests, responses).expect("the example schema is consistent");
    assert_eq!(iface.methods.len(), 4);
    assert_eq!(iface.arms.len(), 4);
    let method_names: Vec<&str> = iface.methods.iter().map(|m| m.name.as_str()).collect();
    assert_eq!(method_names, ["get_name", "set_rounding", "float_op", "random_bytes"]);
    for (k, arm) in iface.arms.iter().enumerate() {
        assert_eq!(arm.tag as usize, k, "arms match operations by position");
    }
    assert_eq!(iface.arms[2].request_arity, 2);
    assert_eq!(iface.arms[2].response_arity, 1);
    assert_eq!(iface.arms[1].response_arity, 0);
}

#[test]
fn mismatched_counts_fail_generation() {
    let (names, requests, mut responses) = example_schema();
    responses.pop();
    assert!(matches!(
        generate_interface(&names, requests, responses),
        Err(GenError::CountMismatch)
    ));
}

#[test]
fn colliding_method_names_fail_generation() {
    let names = vec!["GetName".to_string(), "getName".to_string()];
    let requests = vec![Vec::new(), Vec::new()];
    let responses = vec![Vec::new(), Vec::new()];
    assert!(matches!(
        generate_interface(&names, requests, responses),
        Err(GenError::NameCollision)
    ));
}

#[test]
fn arity_collapse_of_the_example_operations() {
    let (names, requests, responses) = example_schema();
    let iface = generate_interface(&names, requests, responses).unwrap();
    // "get name": one text field collapses to the bare text type.
    assert_eq!(iface.methods[0].ret, ReturnShape::Bare(FieldType::Text));
    assert_eq!(iface.methods[0].params, Vec::<FieldType>::new());
    // "set rounding": zero response fields collapse to unit.
    assert_eq!(iface.methods[1].ret, ReturnShape::Unit);
    assert_eq!(iface.methods[1].params, vec![FieldType::Bool]);
    // "float operation": one numeric field, bare.
    assert_eq!(iface.methods[2].ret, ReturnShape::Bare(FieldType::Num));
    assert_eq!(iface.methods[2].params, vec![FieldType::Num, FieldType::Num]);
    // "random bytes": one byte-sequence field, bare.
    assert_eq!(iface.methods[3].ret, ReturnShape::Bare(FieldType::Bytes));
    assert_eq!(iface.methods[3].params, vec![FieldType::Num]);
}

#[test]
fn two_or_more_response_fields_collapse_to_a_tuple() {
    assert_eq!(
        collapse_return(vec![FieldType::Num, FieldType::Text]),
        ReturnShape::Tuple(vec![FieldType::Num, FieldType::Text])
    );
    assert_eq!(collapse_return(Vec::new()), ReturnShape::Unit);
    assert_eq!(collapse_return(vec![FieldType::Bool]), ReturnShape::Bare(FieldType::Bool));
}
