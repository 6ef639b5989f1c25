use xtce_editor::algorithm::{AlgorithmText, InputAlgorithm, InputAlgorithmValues, decode_inputs};
use xtce_editor::boolean::{
    BooleanExpression, BooleanNodeModel, CheckItem, ComparisonCheck, ComparisonOperator,
    InstanceRef, LogicalOperator, RightOperand, add_condition, expression_from_node,
    remove_node, wrap_root,
};
use xtce_editor::calibrator::{
    Calibrator, CalibratorContent, CalibratorKind, CalibratorValues, MathOperationCalibrator,
    PolynomialCalibrator, Term, math_calibrator_content, rpn_entries_from_calibrator,
};
use xtce_editor::errors::{
    ChecksumChoice, ErrorCheck, ErrorKind, ErrorValues, ParityChoice, ReferencePoint, form_checks,
    form_rows,
};
use xtce_editor::rpn::RpnOperationEntry;

fn instance(name: &str, instance: i64, calibrated: bool) -> InstanceRef<String> {
    InstanceRef {
        parameter_ref: name.to_owned(),
        instance,
        use_calibrated_value: calibrated,
    }
}

fn condition() -> ComparisonCheck {
    ComparisonCheck {
        content: vec![
            CheckItem::ParameterInstanceRef(instance("P1", 0, true)),
            CheckItem::ComparisonOperator("==".to_owned()),
            CheckItem::Value("1".to_owned()),
        ],
    }
}

#[test]
fn nested_boolean_expression_is_loaded_without_flattening() {
    let expression = BooleanExpression::Anded(vec![
        BooleanExpression::Condition(condition()),
        BooleanExpression::Ored(vec![
            BooleanExpression::Condition(condition()),
            BooleanExpression::Condition(condition()),
        ]),
    ]);
    let BooleanNodeModel::Group { operator, children } = BooleanNodeModel::from_expression(&expression) else {
        panic!("expected group");
    };
    assert_eq!(operator, LogicalOperator::And);
    assert!(matches!(
        &children[1],
        BooleanNodeModel::Group {
            operator: LogicalOperator::Or,
            ..
        }
    ));
}

#[test]
fn comparison_check_supports_a_parameter_on_the_right() {
    let check = ComparisonCheck {
        content: vec![
            CheckItem::ParameterInstanceRef(instance("LEFT", 0, true)),
            CheckItem::ComparisonOperator("!=".to_owned()),
            CheckItem::ParameterInstanceRef(instance("RIGHT", 2, false)),
        ],
    };
    let BooleanNodeModel::Condition(values) =
        BooleanNodeModel::from_expression(&BooleanExpression::Condition(check))
    else {
        panic!("expected condition");
    };
    assert_eq!(values.operator, ComparisonOperator::NotEqual);
    assert!(matches!(
        values.right,
        RightOperand::Parameter {
            parameter_ref,
            instance: 2,
            calibrated: false,
        } if parameter_ref == "RIGHT"
    ));
}

#[test]
fn boolean_tree_round_trips_through_the_expression() {
    let expression = BooleanExpression::Ored(vec![
        BooleanExpression::Condition(condition()),
        BooleanExpression::Anded(vec![
            BooleanExpression::Condition(condition()),
            BooleanExpression::Condition(condition()),
        ]),
    ]);
    let node = BooleanNodeModel::from_expression(&expression);
    let back = expression_from_node(&node);
    assert_eq!(format!("{back:?}"), format!("{expression:?}"));
}

#[test]
fn boolean_tree_edits_follow_the_path() {
    let mut root = BooleanNodeModel::default_condition();
    wrap_root(&mut root, LogicalOperator::And);
    let BooleanNodeModel::Group { children, .. } = &root else {
        panic!("expected group");
    };
    assert_eq!(children.len(), 2);
    add_condition(&mut root, &[]);
    let BooleanNodeModel::Group { children, .. } = &root else {
        panic!("expected group");
    };
    assert_eq!(children.len(), 3);
    remove_node(&mut root, &[0]);
    remove_node(&mut root, &[0]);
    let BooleanNodeModel::Group { children, .. } = &root else {
        panic!("expected group");
    };
    assert_eq!(children.len(), 2);
    add_condition(&mut root, &[0]);
    let BooleanNodeModel::Group { children, .. } = &root else {
        panic!("expected group");
    };
    assert!(matches!(children[0], BooleanNodeModel::Condition(_)));
}

#[test]
fn polynomial_calibrator_is_loaded_as_editable_term_rows() {
    let calibrator = Calibrator {
        name: Some("temperature".to_owned()),
        short_description: Some("Raw counts to degrees".to_owned()),
        content: vec![CalibratorContent::Polynomial(PolynomialCalibrator {
            name: None,
            short_description: None,
            ancillary_data_set: None,
            term: vec![
                Term {
                    coefficient: "1.5".to_owned(),
                    exponent: 0,
                },
                Term {
                    coefficient: "0.25".to_owned(),
                    exponent: 1,
                },
            ],
        })],
    };

    let values = CalibratorValues::from_calibrator(Some(&calibrator));

    assert_eq!(values.kind, CalibratorKind::Polynomial);
    assert_eq!(values.name, "temperature");
    assert_eq!(values.rows.len(), 2);
    assert_eq!(values.rows[1].first, "0.25");
    assert_eq!(values.rows[1].second, "1");
}

#[test]
fn math_operation_calibrator_is_loaded_as_editable_rpn() {
    let entries = vec![
        RpnOperationEntry::ThisParameter("raw".to_owned()),
        RpnOperationEntry::Value("2".to_owned()),
        RpnOperationEntry::Operator("*".to_owned()),
        RpnOperationEntry::ParameterInstance {
            parameter_ref: "P1".to_owned(),
            instance: 1,
            use_calibrated_value: false,
        },
    ];
    let content = entries
        .clone()
        .into_iter()
        .map(math_calibrator_content)
        .collect::<Vec<_>>();
    assert_eq!(rpn_entries_from_calibrator(&content), entries);

    let calibrator = Calibrator {
        name: Some("scale".to_owned()),
        short_description: None,
        content: vec![CalibratorContent::MathOperation(MathOperationCalibrator {
            name: None,
            short_description: None,
            content,
        })],
    };
    let values = CalibratorValues::from_calibrator(Some(&calibrator));
    assert_eq!(values.kind, CalibratorKind::MathOperation);
    assert!(matches!(
        &values.math_operation[2],
        RpnOperationEntry::Operator(value) if value == "*"
    ));
}

#[test]
fn checksum_fields_are_loaded() {
    let content = ErrorCheck::Checksum {
        bits_from_reference: 12,
        reference: ReferencePoint::End,
        name: ChecksumChoice::Fletcher16,
        hash_size_in_bits: Some(16),
        parameter_ref: Some("checksum".to_owned()),
        input_algorithm: None,
    };

    let values = ErrorValues::from_content(&content);

    assert_eq!(values.kind, ErrorKind::Checksum);
    assert_eq!(values.checksum_name, ChecksumChoice::Fletcher16);
    assert_eq!(values.hash_size_in_bits, "16");
    assert_eq!(values.parameter_ref, "checksum");
}

#[test]
fn parity_fields_are_loaded() {
    let content = ErrorCheck::Parity {
        type_: ParityChoice::Odd,
        bits_from_reference: 0,
        reference: ReferencePoint::Start,
        parameter_ref: None,
    };

    let values = ErrorValues::from_content(&content);

    assert_eq!(values.kind, ErrorKind::Parity);
    assert_eq!(values.parity, ParityChoice::Odd);
}

#[test]
fn custom_match_algorithm_values_include_text_and_inputs() {
    let algorithm = InputAlgorithm {
        short_description: None,
        name: "validPacket".to_owned(),
        long_description: None,
        alias_set: None,
        ancillary_data_set: None,
        algorithm_text: Some(AlgorithmText {
            language: "python".to_owned(),
            content: "return packet_ok".to_owned(),
        }),
        external_algorithm_set: None,
        input_set: decode_inputs("constant | limit | 5"),
    };
    let values = InputAlgorithmValues::from_algorithm(Some(&algorithm));
    assert_eq!(values.name, "validPacket");
    assert_eq!(values.language, "python");
    assert_eq!(values.inputs, "constant | limit | 5");
}

#[test]
fn error_rows_give_back_their_checks() {
    let checks = vec![
        ErrorCheck::Parity {
            type_: ParityChoice::Even,
            bits_from_reference: 3,
            reference: ReferencePoint::Start,
            parameter_ref: Some("p".to_owned()),
        },
        ErrorCheck::Xor { bits_from_reference: -1, reference: ReferencePoint::End, parameter_ref: None },
    ];
    let (present, rows) = form_rows(Some(&checks));
    assert!(present);
    assert_eq!(rows.len(), 2);
    assert_eq!(rows[0].kind, ErrorKind::Parity);
    assert_eq!(rows[1].kind, ErrorKind::Xor);
    assert_eq!(rows[1].bits_from_reference, "-1");
    let back = form_checks(true, &rows, vec![unused_algorithm(), unused_algorithm()]).unwrap();
    assert_eq!(back.len(), 2);
    match &back[0] {
        ErrorCheck::Parity { type_, bits_from_reference, parameter_ref, .. } => {
            assert_eq!(*type_, ParityChoice::Even);
            assert_eq!(*bits_from_reference, 3);
            assert_eq!(parameter_ref.as_deref(), Some("p"));
        }
        _ => panic!("expected a parity check"),
    }
    match &back[1] {
        ErrorCheck::Xor { bits_from_reference, parameter_ref, .. } => {
            assert_eq!(*bits_from_reference, -1);
            assert!(parameter_ref.is_none());
        }
        _ => panic!("expected an XOR check"),
    }
}

#[test]
fn no_error_detection_shows_no_rows_and_gives_none() {
    let (present, rows) = form_rows(None);
    assert!(!present);
    assert!(rows.is_empty());
    assert!(form_checks(false, &rows, Vec::new()).is_none());
    let empty = form_checks(true, &rows, Vec::new()).unwrap();
    assert!(empty.is_empty());
}

fn unused_algorithm() -> InputAlgorithm {
    InputAlgorithm {
        short_description: None,
        name: "unused".to_owned(),
        long_description: None,
        alias_set: None,
        ancillary_data_set: None,
        algorithm_text: None,
        external_algorithm_set: None,
        input_set: None,
    }
}

#[test]
fn a_calibrator_form_that_is_off_gives_none_whatever_its_operands() {
    let values = CalibratorValues {
        kind: CalibratorKind::MathOperation,
        name: String::new(),
        short_description: String::new(),
        order: String::new(),
        extrapolate: false,
        math_operation: vec![RpnOperationEntry::ArgumentInstance {
            argument_ref: "arg".to_owned(),
            use_calibrated_value: true,
        }],
        rows: Vec::new(),
    };
    let mut calibrator = Some(Calibrator { name: None, short_description: None, content: Vec::new() });
    xtce_editor::calibrator::apply_to(&values, false, false, &mut calibrator);
    assert!(calibrator.is_none());
    let c = xtce_editor::calibrator::calibrator(&values, false, false);
    assert!(c.name.is_none());
    assert!(c.content.is_empty());
}
