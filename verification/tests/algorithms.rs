use xtce_editor::algorithm::{
    decode_external_algorithms, decode_inputs, decode_outputs, decode_triggers,
    encode_external_algorithms, encode_inputs, encode_outputs, encode_triggers, Trigger,
};
use xtce_editor::alias::decode;
use xtce_editor::ancillary::{decode as decode_ancillary, encode_entries};
use xtce_editor::custom::{
    apply_custom_algorithm, custom_algorithm_values, default_custom_algorithm,
};
use xtce_editor::enumeration::{next_value, EnumerationRowData};
use xtce_editor::errors::BooleanChoice;
use xtce_editor::header::{validation_status_from_str, validation_status_label};
use xtce_editor::math::{
    apply_math_algorithm, default_math_algorithm, math_algorithm_values,
    rpn_entries_from_operation, triggered_math_content, TriggeredMathContent,
    TriggeredMathOperation,
};
use xtce_editor::rpn::RpnOperationEntry;

#[test]
fn decodes_one_alias_per_line() {
    let aliases = decode("catalog = EXAMPLE-001\noperations = EXM");

    assert_eq!(aliases.len(), 2);
    assert_eq!(aliases[0].name_space, "catalog");
    assert_eq!(aliases[1].alias, "EXM");
}

#[test]
fn ancillary_data_text_compatibility_round_trips() {
    let entries = decode_ancillary(
        "documentation | text/html | https://example.invalid/docs | Mission documentation",
    );

    assert_eq!(entries.len(), 1);
    assert_eq!(entries[0].mime_type, "text/html");
    assert_eq!(
        entries[0].href.as_deref(),
        Some("https://example.invalid/docs")
    );
    assert_eq!(entries[0].content, "Mission documentation");
    assert_eq!(
        encode_entries(&entries),
        "documentation | text/html | https://example.invalid/docs | Mission documentation"
    );
}

#[test]
fn next_enumeration_value_follows_the_largest_value_or_range() {
    let rows = vec![
        EnumerationRowData {
            value: "0".to_owned(),
            max_value: String::new(),
            label: "OFF".to_owned(),
            description: String::new(),
        },
        EnumerationRowData {
            value: "1".to_owned(),
            max_value: "3".to_owned(),
            label: "ACTIVE".to_owned(),
            description: String::new(),
        },
    ];

    assert_eq!(next_value(&rows), 4);
}

#[test]
fn validation_status_is_parsed_case_insensitively() {
    let status = validation_status_from_str("validated");

    assert_eq!(validation_status_label(status), "Validated");
}

#[test]
fn unknown_validation_status_falls_back_to_unknown() {
    let status = validation_status_from_str("not-a-status");

    assert_eq!(validation_status_label(status), "Unknown");
}

#[test]
fn custom_algorithm_compact_collections_round_trip() {
    let external = decode_external_algorithms("impl | /opt/algorithm").unwrap();
    assert_eq!(
        encode_external_algorithms(Some(&external)),
        "impl | /opt/algorithm"
    );

    let inputs = decode_inputs("parameter | P1 | 2 | false | input\nconstant | C1 | 42").unwrap();
    assert_eq!(
        encode_inputs(Some(&inputs)),
        "parameter | P1 | 2 | false | input\nconstant | C1 | 42"
    );

    let outputs = decode_outputs("P2 | result").unwrap();
    assert_eq!(encode_outputs(Some(&outputs)), "P2 | result");

    let triggers = decode_triggers("main", "2", "parameter | P1\nperiodic | 0.5").unwrap();
    assert_eq!(
        encode_triggers(Some(&triggers)),
        "parameter | P1\nperiodic | 0.5"
    );
    assert_eq!(triggers.name.as_deref(), Some("main"));
    assert_eq!(triggers.trigger_rate, 2);
}

#[test]
fn new_custom_algorithm_uses_xtce_thread_default() {
    let algorithm = default_custom_algorithm("CustomAlgorithm1".to_owned());
    assert_eq!(algorithm.name, "CustomAlgorithm1");
    assert!(!algorithm.thread);
}

#[test]
fn math_operation_entries_round_trip_in_rpn_order() {
    let entries = vec![
        RpnOperationEntry::ParameterInstance {
            parameter_ref: "P1".to_owned(),
            instance: 1,
            use_calibrated_value: false,
        },
        RpnOperationEntry::Value("2".to_owned()),
        RpnOperationEntry::Operator("*".to_owned()),
    ];
    let operation = TriggeredMathOperation {
        name: None,
        short_description: None,
        output_parameter_ref: "OUT".to_owned(),
        content: entries
            .clone()
            .into_iter()
            .map(triggered_math_content)
            .collect(),
    };
    assert_eq!(rpn_entries_from_operation(Some(&operation)), entries);
}

#[test]
fn math_operation_triggers_round_trip() {
    let triggers = decode_triggers("main", "2", "container | C1\nperiodic | 0.5").unwrap();
    assert_eq!(
        encode_triggers(Some(&triggers)),
        "container | C1\nperiodic | 0.5"
    );
    assert_eq!(triggers.trigger_rate, 2);
}

#[test]
fn new_math_algorithm_has_a_valid_initial_operand() {
    let algorithm = default_math_algorithm("MathAlgorithm1".to_owned());
    assert_eq!(algorithm.name, "MathAlgorithm1");
    assert!(matches!(
        algorithm.math_operation.content.as_slice(),
        [TriggeredMathContent::ValueOperand(value)] if value == "0"
    ));
}

#[test]
fn trigger_rate_falls_back_to_the_default_and_blank_lines_give_no_set() {
    let triggers = decode_triggers("  ", "fast", "periodic | 1e3\nbogus | x").unwrap();
    assert_eq!(triggers.name, None);
    assert_eq!(triggers.trigger_rate, 1);
    assert!(matches!(triggers.content.as_slice(), [Trigger::Periodic(p)] if p == "1e3"));
    assert!(decode_triggers("main", "2", "periodic | often").is_none());
    assert_eq!(encode_triggers(None), "");
}

#[test]
fn custom_algorithm_form_values_apply_back() {
    let mut algorithm = default_custom_algorithm("Filter".to_owned());
    algorithm.priority = Some(-3);
    algorithm.trigger_container = Some("Frame".to_owned());
    algorithm.input_set = decode_inputs("parameter | P1 | 0 | true");
    algorithm.trigger_set = decode_triggers("", "4", "parameter | P1");

    let values = custom_algorithm_values(Some(&algorithm));
    assert_eq!(values.priority, "-3");
    assert_eq!(values.thread, BooleanChoice::False);
    assert_eq!(values.language, "java");
    assert_eq!(values.trigger_rate, "4");
    assert_eq!(values.inputs, "parameter | P1 | 0 | true | ");

    let mut rebuilt = default_custom_algorithm(String::new());
    apply_custom_algorithm(&values, &Vec::new(), &Vec::new(), &mut rebuilt);
    assert_eq!(rebuilt.name, "Filter");
    assert_eq!(rebuilt.priority, Some(-3));
    assert_eq!(rebuilt.trigger_container.as_deref(), Some("Frame"));
    assert_eq!(encode_inputs(rebuilt.input_set.as_ref()), "parameter | P1 | 0 | true | ");
    assert_eq!(rebuilt.trigger_set.as_ref().map(|t| t.trigger_rate), Some(4));
    assert!(rebuilt.algorithm_text.is_none());
    assert!(rebuilt.output_set.is_none());

    let none = custom_algorithm_values(None);
    assert_eq!(none.trigger_rate, "1");
    assert_eq!(none.name, "");
}

#[test]
fn math_algorithm_form_values_apply_back() {
    let algorithm = default_math_algorithm("Sum".to_owned());
    let mut values = math_algorithm_values(Some(&algorithm));
    assert_eq!(values.operation_entries, vec![RpnOperationEntry::Value("0".to_owned())]);
    assert_eq!(values.trigger_rate, "1");

    values.operation_entries.clear();
    values.triggers = "periodic | 2.5".to_owned();
    let mut rebuilt = default_math_algorithm(String::new());
    apply_math_algorithm(&values, &Vec::new(), &Vec::new(), &Vec::new(), &mut rebuilt);
    assert_eq!(rebuilt.name, "Sum");
    assert!(matches!(
        rebuilt.math_operation.content.as_slice(),
        [TriggeredMathContent::ValueOperand(v), TriggeredMathContent::TriggerSet(_)] if v == "0"
    ));
}
