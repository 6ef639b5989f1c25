use xtce_editor::algorithm::InputAlgorithm;
use xtce_editor::boolean::{
    BooleanExpression, CheckItem, ComparisonCheck, ComparisonOperator, InstanceRef,
};
use xtce_editor::lookup::{
    comparison, comparison_values, default_comparison, default_value_of, lookup_list, lookup_row,
    lookup_row_value, row_comparisons, CalibratedChoice, Comparison, ComparisonValues,
    CriteriaKind, DiscreteLookup, DiscreteLookupList, LookupCriteria,
};

fn compare(parameter: &str, operator: &str, value: &str) -> Comparison {
    Comparison {
        parameter_ref: parameter.to_owned(),
        instance: 2,
        use_calibrated_value: false,
        comparison_operator: operator.to_owned(),
        value: value.to_owned(),
    }
}

fn algorithm(name: &str) -> InputAlgorithm {
    InputAlgorithm {
        short_description: None,
        name: name.to_owned(),
        long_description: None,
        alias_set: None,
        ancillary_data_set: None,
        algorithm_text: None,
        external_algorithm_set: None,
        input_set: None,
    }
}

fn condition() -> BooleanExpression {
    BooleanExpression::Condition(ComparisonCheck {
        content: vec![
            CheckItem::ParameterInstanceRef(InstanceRef {
                parameter_ref: "Mode".to_owned(),
                instance: 0,
                use_calibrated_value: true,
            }),
            CheckItem::ComparisonOperator("==".to_owned()),
            CheckItem::Value("1".to_owned()),
        ],
    })
}

#[test]
fn a_new_comparison_uses_the_schema_defaults() {
    let c = default_comparison();
    assert_eq!(c.parameter_ref, "");
    assert_eq!(c.instance, 0);
    assert!(c.use_calibrated_value);
    assert_eq!(c.comparison_operator, "==");
    assert_eq!(c.value, "");
}

#[test]
fn a_comparison_row_shows_and_gives_back_the_comparison() {
    let c = compare("Voltage", "<=", "3.3");
    let row = comparison_values(&c);
    assert_eq!(row.parameter_ref, "Voltage");
    assert_eq!(row.instance, "2");
    assert_eq!(row.calibrated, CalibratedChoice::Raw);
    assert_eq!(row.operator, ComparisonOperator::LessOrEqual);
    assert_eq!(row.value, "3.3");
    let back = comparison(&row);
    assert_eq!(back.parameter_ref, "Voltage");
    assert_eq!(back.instance, 2);
    assert!(!back.use_calibrated_value);
    assert_eq!(back.comparison_operator, "<=");
    assert_eq!(back.value, "3.3");
}

#[test]
fn an_unknown_operator_shows_as_equality() {
    let row = comparison_values(&compare("Voltage", "=<", "1"));
    assert_eq!(row.operator, ComparisonOperator::Equal);
    assert_eq!(comparison(&row).comparison_operator, "==");
}

#[test]
fn an_instance_that_is_not_a_number_reads_as_zero() {
    let row = ComparisonValues {
        parameter_ref: "P".to_owned(),
        instance: " 7 ".to_owned(),
        calibrated: CalibratedChoice::Calibrated,
        operator: ComparisonOperator::Greater,
        value: "4".to_owned(),
    };
    let c = comparison(&row);
    assert_eq!(c.instance, 7);
    assert!(c.use_calibrated_value);
    assert_eq!(c.comparison_operator, ">");
    let row = ComparisonValues { instance: "seven".to_owned(), ..row };
    assert_eq!(comparison(&row).instance, 0);
}

#[test]
fn a_comparison_list_row_lists_every_comparison() {
    let entry = DiscreteLookup {
        value: -4,
        criteria: LookupCriteria::ComparisonList(vec![
            compare("A", "!=", "1"),
            compare("B", ">=", "2"),
        ]),
    };
    let (value, kind, rows) = lookup_row(&entry);
    assert_eq!(value, "-4");
    assert_eq!(kind, CriteriaKind::ComparisonList);
    assert_eq!(rows.len(), 2);
    assert_eq!(rows[1].operator, ComparisonOperator::GreaterOrEqual);
    let comparisons = row_comparisons(&rows);
    let back = lookup_row_value(&value, kind, comparisons, condition(), algorithm("unused"));
    assert_eq!(back.value, -4);
    match back.criteria {
        LookupCriteria::ComparisonList(v) => {
            assert_eq!(v.len(), 2);
            assert_eq!(v[0].parameter_ref, "A");
            assert_eq!(v[0].comparison_operator, "!=");
            assert_eq!(v[1].parameter_ref, "B");
            assert_eq!(v[1].comparison_operator, ">=");
        }
        _ => panic!("expected a comparison list"),
    }
}

#[test]
fn an_empty_comparison_list_shows_one_new_comparison() {
    let entry = DiscreteLookup { value: 1, criteria: LookupCriteria::ComparisonList(Vec::new()) };
    let (_, kind, rows) = lookup_row(&entry);
    assert_eq!(kind, CriteriaKind::ComparisonList);
    assert_eq!(rows.len(), 1);
    assert_eq!(rows[0].parameter_ref, "");
    assert_eq!(rows[0].operator, ComparisonOperator::Equal);
}

#[test]
fn a_comparison_entry_keeps_only_the_first_row() {
    let rows = vec![
        comparison_values(&compare("First", "<", "1")),
        comparison_values(&compare("Second", ">", "2")),
    ];
    let back = lookup_row_value(
        &"12".to_owned(),
        CriteriaKind::Comparison,
        row_comparisons(&rows),
        condition(),
        algorithm("unused"),
    );
    assert_eq!(back.value, 12);
    match back.criteria {
        LookupCriteria::Comparison(c) => assert_eq!(c.parameter_ref, "First"),
        _ => panic!("expected a comparison"),
    }
    let back = lookup_row_value(
        &"x".to_owned(),
        CriteriaKind::Comparison,
        Vec::new(),
        condition(),
        algorithm("unused"),
    );
    assert_eq!(back.value, 0);
    match back.criteria {
        LookupCriteria::Comparison(c) => assert_eq!(c.comparison_operator, "=="),
        _ => panic!("expected a comparison"),
    }
}

#[test]
fn expression_and_algorithm_entries_take_their_sub_forms() {
    let back = lookup_row_value(
        &"3".to_owned(),
        CriteriaKind::BooleanExpression,
        Vec::new(),
        condition(),
        algorithm("check"),
    );
    assert!(matches!(back.criteria, LookupCriteria::BooleanExpression(BooleanExpression::Condition(_))));
    let back = lookup_row_value(
        &"3".to_owned(),
        CriteriaKind::CustomAlgorithm,
        Vec::new(),
        condition(),
        algorithm("check"),
    );
    match back.criteria {
        LookupCriteria::CustomAlgorithm(a) => assert_eq!(a.name, "check"),
        _ => panic!("expected an algorithm"),
    }
    let entry = DiscreteLookup { value: 9, criteria: LookupCriteria::CustomAlgorithm(algorithm("a")) };
    let (value, kind, rows) = lookup_row(&entry);
    assert_eq!(value, "9");
    assert_eq!(kind, CriteriaKind::CustomAlgorithm);
    assert_eq!(rows.len(), 1);
}

#[test]
fn the_default_value_shows_and_reads_back() {
    assert_eq!(default_value_of(None), "0");
    let list = DiscreteLookupList { default_value: -17, discrete_lookup: Vec::new() };
    assert_eq!(default_value_of(Some(&list)), "-17");
    let rows = vec![DiscreteLookup { value: 5, criteria: LookupCriteria::Comparison(compare("A", "==", "1")) }];
    let l = lookup_list(&" -17 ".to_owned(), rows);
    assert_eq!(l.default_value, -17);
    assert_eq!(l.discrete_lookup.len(), 1);
    assert_eq!(l.discrete_lookup[0].value, 5);
    assert_eq!(lookup_list(&"".to_owned(), Vec::new()).default_value, 0);
}
