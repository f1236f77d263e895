use sonify_health::param_order::{validate_orders, OrderError};

fn fields(list: &[(&str, u32)]) -> Vec<(String, u32)> {
    list.iter().map(|(n, o)| (n.to_string(), *o)).collect()
}

#[test]
fn orders_in_any_declaration_order_are_accepted() {
    assert_eq!(validate_orders(&fields(&[("a", 1), ("b", 0), ("c", 2)])), Ok(()));
    assert_eq!(validate_orders(&fields(&[])), Ok(()));
}

#[test]
fn repeated_order_names_both_parameters() {
    assert_eq!(
        validate_orders(&fields(&[("a", 0), ("b", 0)])),
        Err(OrderError::Duplicate { order: 0, first: "a".to_string(), field: "b".to_string() })
    );
}

#[test]
fn first_repeat_in_declaration_order_is_reported() {
    // `d` repeats `b`'s order before `e` repeats `a`'s.
    assert_eq!(
        validate_orders(&fields(&[("a", 3), ("b", 1), ("c", 2), ("d", 1), ("e", 3)])),
        Err(OrderError::Duplicate { order: 1, first: "b".to_string(), field: "d".to_string() })
    );
}

#[test]
fn gap_in_orders_reports_the_smallest_missing_order() {
    assert_eq!(
        validate_orders(&fields(&[("a", 0), ("b", 2)])),
        Err(OrderError::Missing { order: 1, count: 2 })
    );
    assert_eq!(
        validate_orders(&fields(&[("a", 5)])),
        Err(OrderError::Missing { order: 0, count: 1 })
    );
}
