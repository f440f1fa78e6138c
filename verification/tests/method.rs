use openapiv3_resolve::{operation_methods, Method};

#[test]
fn operations_are_listed_in_method_order() {
    let present = [false, true, true, false, false, true, false, true];
    let methods = operation_methods(present);
    assert_eq!(methods, vec![Method::Put, Method::Post, Method::Head, Method::Trace]);
    let names: Vec<&str> = methods.iter().map(|m| m.as_str()).collect();
    assert_eq!(names, vec!["put", "post", "head", "trace"]);
}

#[test]
fn a_path_item_without_operations_lists_none() {
    assert!(operation_methods([false; 8]).is_empty());
    assert_eq!(operation_methods([true; 8]).len(), 8);
    assert_eq!(operation_methods([true; 8])[0], Method::Get);
}
