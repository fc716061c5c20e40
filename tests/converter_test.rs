use liquid_protocol::converter::{DataSourceConverter, QueryCondition};
use liquid_protocol::{
    ConversionError, ConvertedQuery, DataSource, Filter, FilterOperator, FilterValue,
    FilterValueScalar, Number,
};

#[test]
fn test_query_condition_field() {
    let cond = QueryCondition::Eq {
        field: "test".to_string(),
        value: "value".to_string(),
    };
    assert_eq!(cond.field(), "test");
}

#[test]
fn test_converted_query_new() {
    let query = ConvertedQuery::new("users".to_string());
    assert_eq!(query.resource(), "users");
    assert!(query.conditions().is_empty());
    assert_eq!(query.limit(), None);
}

#[test]
fn test_conversion_error_display() {
    let err = ConversionError::new("TEST_CODE", "Test message");
    assert_eq!(err.describe(), "[TEST_CODE] Test message");
}

#[test]
fn test_convert_simple_resource_only() {
    let ds = DataSource {
        resource: "users".to_string(),
        filters: None,
        aggregation: None,
        sort: None,
        limit: None,
    };

    let converter = DataSourceConverter::new();
    let query = converter.convert(&ds).unwrap();

    assert_eq!(query.resource(), "users");
    assert!(query.conditions().is_empty());
}

#[test]
fn test_convert_with_eq_filter() {
    let ds = DataSource {
        resource: "expenses".to_string(),
        filters: Some(vec![Filter {
            field: "category".to_string(),
            op: FilterOperator::Eq,
            value: FilterValue::String("food".to_string()),
        }]),
        aggregation: None,
        sort: None,
        limit: None,
    };

    let converter = DataSourceConverter::new();
    let query = converter.convert(&ds).unwrap();

    assert_eq!(query.resource(), "expenses");
    assert_eq!(query.conditions().len(), 1);

    let condition = &query.conditions()[0];
    assert_eq!(condition.field(), "category");
    match condition {
        QueryCondition::Eq { field, value } => {
            assert_eq!(field, "category");
            assert_eq!(value, "food");
        }
        _ => panic!("Expected Eq condition"),
    }
}

#[test]
fn test_convert_with_neq_filter() {
    let ds = DataSource {
        resource: "expenses".to_string(),
        filters: Some(vec![Filter {
            field: "category".to_string(),
            op: FilterOperator::Neq,
            value: FilterValue::String("travel".to_string()),
        }]),
        aggregation: None,
        sort: None,
        limit: None,
    };

    let converter = DataSourceConverter::new();
    let query = converter.convert(&ds).unwrap();

    let condition = &query.conditions()[0];
    match condition {
        QueryCondition::Neq { field, value } => {
            assert_eq!(field, "category");
            assert_eq!(value, "travel");
        }
        _ => panic!("Expected Neq condition"),
    }
}

#[test]
fn test_convert_with_gt_filter() {
    let ds = DataSource {
        resource: "users".to_string(),
        filters: Some(vec![Filter {
            field: "age".to_string(),
            op: FilterOperator::Gt,
            value: FilterValue::Number(Number::from_int(18)),
        }]),
        aggregation: None,
        sort: None,
        limit: None,
    };

    let converter = DataSourceConverter::new();
    let query = converter.convert(&ds).unwrap();

    let condition = &query.conditions()[0];
    match condition {
        QueryCondition::Gt { field, value } => {
            assert_eq!(field, "age");
            assert_eq!(*value, Number::from_int(18));
        }
        _ => panic!("Expected Gt condition"),
    }
}

#[test]
fn test_convert_with_in_filter() {
    let ds = DataSource {
        resource: "products".to_string(),
        filters: Some(vec![Filter {
            field: "status".to_string(),
            op: FilterOperator::In,
            value: FilterValue::Array(vec![
                FilterValueScalar::String("active".to_string()),
                FilterValueScalar::String("pending".to_string()),
            ]),
        }]),
        aggregation: None,
        sort: None,
        limit: None,
    };

    let converter = DataSourceConverter::new();
    let query = converter.convert(&ds).unwrap();

    let condition = &query.conditions()[0];
    match condition {
        QueryCondition::In { field, values } => {
            assert_eq!(field, "status");
            assert_eq!(values.len(), 2);
        }
        _ => panic!("Expected In condition"),
    }
}

#[test]
fn test_convert_with_multiple_filters() {
    let ds = DataSource {
        resource: "orders".to_string(),
        filters: Some(vec![
            Filter {
                field: "status".to_string(),
                op: FilterOperator::Eq,
                value: FilterValue::String("completed".to_string()),
            },
            Filter {
                field: "amount".to_string(),
                op: FilterOperator::Gt,
                value: FilterValue::Number(Number::from_int(100)),
            },
        ]),
        aggregation: None,
        sort: None,
        limit: None,
    };

    let converter = DataSourceConverter::new();
    let query = converter.convert(&ds).unwrap();

    assert_eq!(query.conditions().len(), 2);
}

#[test]
fn test_convert_with_limit() {
    let ds = DataSource {
        resource: "posts".to_string(),
        filters: None,
        aggregation: None,
        sort: None,
        limit: Some(10),
    };

    let converter = DataSourceConverter::new();
    let query = converter.convert(&ds).unwrap();

    assert_eq!(query.limit(), Some(10));
}

#[test]
fn test_convert_with_all_filter_operators() {
    let operators = vec![
        (FilterOperator::Eq, FilterValue::String("test".to_string())),
        (FilterOperator::Neq, FilterValue::String("test".to_string())),
        (FilterOperator::Gt, FilterValue::Number(Number::from_int(10))),
        (FilterOperator::Gte, FilterValue::Number(Number::from_int(10))),
        (FilterOperator::Lt, FilterValue::Number(Number::from_int(10))),
        (FilterOperator::Lte, FilterValue::Number(Number::from_int(10))),
        (FilterOperator::Contains, FilterValue::String("substring".to_string())),
    ];

    let converter = DataSourceConverter::new();

    for (op, value) in operators.iter().cloned() {
        let ds = DataSource {
            resource: "test".to_string(),
            filters: Some(vec![Filter {
                field: "field".to_string(),
                op: op.clone(),
                value,
            }]),
            aggregation: None,
            sort: None,
            limit: None,
        };

        let result = converter.convert(&ds);
        assert!(result.is_ok(), "Operator {:?} should be supported", op);
    }
}

#[test]
fn test_error_on_invalid_in_operator_with_non_array() {
    let ds = DataSource {
        resource: "test".to_string(),
        filters: Some(vec![Filter {
            field: "field".to_string(),
            op: FilterOperator::In,
            value: FilterValue::String("not_an_array".to_string()),
        }]),
        aggregation: None,
        sort: None,
        limit: None,
    };

    let converter = DataSourceConverter::new();
    let result = converter.convert(&ds);

    assert!(result.is_err());
    let err = result.unwrap_err();
    assert_eq!(err.code(), "INVALID_FILTER_VALUE_TYPE");
}

fn single(op: FilterOperator, value: FilterValue) -> DataSource {
    DataSource {
        resource: "items".to_string(),
        filters: Some(vec![Filter {
            field: "f".to_string(),
            op,
            value,
        }]),
        aggregation: None,
        sort: None,
        limit: None,
    }
}

#[test]
fn in_filter_with_scalar_is_rejected() {
    let ds = DataSource {
        resource: "products".to_string(),
        filters: Some(vec![Filter {
            field: "status".to_string(),
            op: FilterOperator::In,
            value: FilterValue::String("electronics".to_string()),
        }]),
        aggregation: None,
        sort: None,
        limit: None,
    };
    let err = DataSourceConverter::new().convert(&ds).unwrap_err();
    assert_eq!(err.code(), "INVALID_FILTER_VALUE_TYPE");
    assert_eq!(err.message(), "Expected array value for 'in' operator");
}

#[test]
fn scalars_become_text() {
    let c = DataSourceConverter::new();
    let q = c.convert(&single(FilterOperator::Contains, FilterValue::Number(Number::decimal(false, 25, 1)))).unwrap();
    assert_eq!(
        q.conditions()[0],
        QueryCondition::Contains { field: "f".to_string(), value: "2.5".to_string() }
    );
    let q = c.convert(&single(FilterOperator::Neq, FilterValue::Boolean(false))).unwrap();
    assert_eq!(
        q.conditions()[0],
        QueryCondition::Neq { field: "f".to_string(), value: "false".to_string() }
    );
    let q = c.convert(&single(FilterOperator::Eq, FilterValue::Number(Number::from_int(-3)))).unwrap();
    assert_eq!(
        q.conditions()[0],
        QueryCondition::Eq { field: "f".to_string(), value: "-3".to_string() }
    );
}

#[test]
fn array_elements_become_text_in_order() {
    let value = FilterValue::Array(vec![
        FilterValueScalar::Number(Number::from_int(7)),
        FilterValueScalar::String("x".to_string()),
        FilterValueScalar::Number(Number::decimal(false, 5, 2)),
    ]);
    let q = DataSourceConverter::new().convert(&single(FilterOperator::In, value)).unwrap();
    assert_eq!(
        q.conditions()[0],
        QueryCondition::In {
            field: "f".to_string(),
            values: vec!["7".to_string(), "x".to_string(), "0.05".to_string()],
        }
    );
    let empty = DataSourceConverter::new()
        .convert(&single(FilterOperator::In, FilterValue::Array(vec![])))
        .unwrap();
    assert_eq!(
        empty.conditions()[0],
        QueryCondition::In { field: "f".to_string(), values: vec![] }
    );
}

#[test]
fn comparisons_need_numbers() {
    let c = DataSourceConverter::new();
    for op in [FilterOperator::Gt, FilterOperator::Gte, FilterOperator::Lt, FilterOperator::Lte] {
        let err = c.convert(&single(op, FilterValue::Boolean(true))).unwrap_err();
        assert_eq!(err.code(), "INVALID_FILTER_VALUE_TYPE");
        assert_eq!(err.message(), "Expected number value");
        assert!(c.convert(&single(op, FilterValue::Array(vec![]))).is_err());
    }
    let q = c.convert(&single(FilterOperator::Lte, FilterValue::Number(Number::decimal(true, 15, 1)))).unwrap();
    assert_eq!(
        q.conditions()[0],
        QueryCondition::Lte { field: "f".to_string(), value: Number::decimal(true, 15, 1) }
    );
}

#[test]
fn equality_operators_reject_arrays() {
    let c = DataSourceConverter::new();
    for op in [FilterOperator::Eq, FilterOperator::Neq, FilterOperator::Contains] {
        let err = c.convert(&single(op, FilterValue::Array(vec![]))).unwrap_err();
        assert_eq!(err.code(), "INVALID_FILTER_VALUE_TYPE");
        assert_eq!(err.message(), "Expected scalar value, got array");
    }
}

#[test]
fn first_misfit_stops_conversion() {
    let ds = DataSource {
        resource: "r".to_string(),
        filters: Some(vec![
            Filter { field: "a".to_string(), op: FilterOperator::Eq, value: FilterValue::Boolean(true) },
            Filter { field: "b".to_string(), op: FilterOperator::Gt, value: FilterValue::String("x".to_string()) },
            Filter { field: "c".to_string(), op: FilterOperator::In, value: FilterValue::Boolean(true) },
        ]),
        aggregation: None,
        sort: None,
        limit: Some(5),
    };
    let err = DataSourceConverter::new().convert(&ds).unwrap_err();
    assert_eq!(err.message(), "Expected number value");
}

#[test]
fn conditions_follow_filter_order_and_limit_is_copied() {
    let ds = DataSource {
        resource: "orders".to_string(),
        filters: Some(vec![
            Filter { field: "a".to_string(), op: FilterOperator::Gte, value: FilterValue::Number(Number::from_int(1)) },
            Filter { field: "b".to_string(), op: FilterOperator::Lt, value: FilterValue::Number(Number::from_int(2)) },
        ]),
        aggregation: None,
        sort: None,
        limit: Some(u32::MAX),
    };
    let q = DataSourceConverter::new().convert(&ds).unwrap();
    assert_eq!(q.resource(), "orders");
    assert_eq!(q.limit(), Some(u32::MAX as usize));
    assert_eq!(q.conditions()[0].field(), "a");
    assert_eq!(q.conditions()[1].field(), "b");
}
