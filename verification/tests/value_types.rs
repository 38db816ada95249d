use oneil::value_types::{DisplayUnit, ExpectedType, NumberType, ValueType};

#[test]
fn matching_value_type_ignores_number_kind() {
    let vt = ValueType::Number { number_type: NumberType::Interval };
    let e = ExpectedType::matching_value_type_ignoring_number_kind(&vt);
    assert!(matches!(e, ExpectedType::Number { number_type: None }));
    assert_eq!(e.describe(), "unitless number");
}

#[test]
fn matching_measured_number_keeps_unit() {
    let vt = ValueType::MeasuredNumber {
        number_type: NumberType::Scalar,
        unit: DisplayUnit { text: "kg".to_string() },
    };
    let e = ExpectedType::matching_value_type_ignoring_number_kind(&vt);
    let ExpectedType::MeasuredNumber { number_type, unit } = &e else {
        panic!("expected a measured number");
    };
    assert!(number_type.is_none());
    assert_eq!(unit.as_ref().map(|u| u.text.as_str()), Some("kg"));
    assert_eq!(e.describe(), "number with unit `kg`");
}

#[test]
fn matching_boolean_and_string() {
    assert!(matches!(
        ExpectedType::matching_value_type_ignoring_number_kind(&ValueType::Boolean),
        ExpectedType::Boolean
    ));
    assert!(matches!(
        ExpectedType::matching_value_type_ignoring_number_kind(&ValueType::String),
        ExpectedType::String
    ));
}

#[test]
fn expected_type_descriptions() {
    assert_eq!(ExpectedType::Boolean.describe(), "boolean");
    assert_eq!(ExpectedType::String.describe(), "string");
    assert_eq!(
        ExpectedType::Number { number_type: Some(NumberType::Scalar) }.describe(),
        "unitless scalar"
    );
    assert_eq!(
        ExpectedType::MeasuredNumber { number_type: Some(NumberType::Interval), unit: None }.describe(),
        "interval with a unit"
    );
    assert_eq!(ExpectedType::NumberOrMeasuredNumber { number_type: None }.describe(), "number");
}
