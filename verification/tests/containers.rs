use xtce_editor::algorithm::InputAlgorithm;
use xtce_editor::boolean::InstanceRef;
use xtce_editor::container::{
    ContainerBinaryEncoding, EncodingValues, RateBasis, RateInStream, RateValues, SizeKind,
    StreamRate, apply_container_encoding, apply_rates, parse_number,
};
use xtce_editor::dynamic::{DynamicValue, DynamicValues, LinearAdjustment, dynamic_value};
use xtce_editor::encoding::IntegerValue;
use xtce_editor::lookup::DiscreteLookupList;
use xtce_editor::significance::{
    ConsequenceLevel, level_from_xtce, level_to_xtce, significance, significance_values,
};

fn lookup(default_value: i64) -> DiscreteLookupList {
    DiscreteLookupList { default_value, discrete_lookup: Vec::new() }
}

fn algorithm(name: &str) -> InputAlgorithm {
    InputAlgorithm {
        short_description: None,
        name: name.to_owned(),
        long_description: None,
        alias_set: None,
        ancillary_data_set: None,
        algorithm_text: None,
        external_algorithm_set: None,
        input_set: None,
    }
}

fn reference(name: &str) -> DynamicValue {
    DynamicValue {
        parameter_instance_ref: InstanceRef {
            parameter_ref: name.to_owned(),
            instance: 0,
            use_calibrated_value: true,
        },
        linear_adjustment: None,
    }
}

#[test]
fn fixed_binary_size_is_available_to_the_form() {
    let encoding = ContainerBinaryEncoding {
        error_detect_correct: None,
        size_in_bits: Some(IntegerValue::FixedValue(128)),
        from_binary_transform_algorithm: None,
        to_binary_transform_algorithm: None,
    };

    let values = EncodingValues::from_encoding(Some(&encoding));

    assert_eq!(values.size_in_bits, "128");
    assert_eq!(values.size_kind, SizeKind::Fixed);
}

#[test]
fn from_binary_transform_is_available_to_the_form() {
    let encoding = ContainerBinaryEncoding {
        error_detect_correct: None,
        size_in_bits: None,
        from_binary_transform_algorithm: Some(algorithm("decodeFrame")),
        to_binary_transform_algorithm: None,
    };

    let values = EncodingValues::from_encoding(Some(&encoding));

    assert!(values.from_transform_present);
    assert_eq!(values.size_kind, SizeKind::NoSize);
}

#[test]
fn to_binary_transform_is_available_to_the_form() {
    let encoding = ContainerBinaryEncoding {
        error_detect_correct: None,
        size_in_bits: None,
        from_binary_transform_algorithm: None,
        to_binary_transform_algorithm: Some(algorithm("encodeFrame")),
    };

    let values = EncodingValues::from_encoding(Some(&encoding));

    assert!(values.to_transform_present);
}

#[test]
fn container_encoding_form_builds_the_size_it_shows() {
    let mut encoding = None;
    let mut values = EncodingValues::from_encoding(None);
    values.size_kind = SizeKind::Fixed;
    values.size_in_bits = " 64 ".to_owned();
    values.to_transform_present = true;
    apply_container_encoding(
        true,
        &values,
        reference("length"),
        lookup(8),
        None,
        algorithm("from"),
        algorithm("to"),
        &mut encoding,
    );
    let e = encoding.as_ref().unwrap();
    assert!(matches!(e.size_in_bits, Some(IntegerValue::FixedValue(64))));
    assert!(e.from_binary_transform_algorithm.is_none());
    assert_eq!(e.to_binary_transform_algorithm.as_ref().map(|a| a.name.as_str()), Some("to"));

    values.size_in_bits = "many".to_owned();
    apply_container_encoding(
        true,
        &values,
        reference("length"),
        lookup(8),
        None,
        algorithm("from"),
        algorithm("to"),
        &mut encoding,
    );
    assert!(encoding.as_ref().unwrap().size_in_bits.is_none());

    values.size_kind = SizeKind::DiscreteLookup;
    apply_container_encoding(
        true,
        &values,
        reference("length"),
        lookup(8),
        None,
        algorithm("from"),
        algorithm("to"),
        &mut encoding,
    );
    assert!(matches!(
        encoding.as_ref().unwrap().size_in_bits,
        Some(IntegerValue::DiscreteLookupList(DiscreteLookupList { default_value: 8, .. }))
    ));

    apply_container_encoding(
        false,
        &values,
        reference("length"),
        lookup(8),
        None,
        algorithm("from"),
        algorithm("to"),
        &mut encoding,
    );
    assert!(encoding.is_none());
}

#[test]
fn rate_values_keep_the_basis_and_optional_bounds() {
    let values = RateValues::from_stream(&StreamRate {
        basis: RateBasis::PerContainerUpdate,
        minimum_value: Some("1.5".to_owned()),
        maximum_value: None,
        stream_ref: "TelemetryStream".to_owned(),
    });

    assert_eq!(values.stream_ref, "TelemetryStream");
    assert_eq!(values.basis, RateBasis::PerContainerUpdate);
    assert_eq!(
        parse_number(&values.minimum).map(|t| t.parse::<f64>().unwrap()),
        Some(1.5)
    );
    assert_eq!(parse_number(&values.maximum), None);
}

#[test]
fn rates_without_a_stream_are_dropped() {
    let default = RateValues::from_default(None);
    assert_eq!(default.basis, RateBasis::PerSecond);
    let rows = vec![
        RateValues {
            stream_ref: "  ".to_owned(),
            basis: RateBasis::PerSecond,
            minimum: "1".to_owned(),
            maximum: String::new(),
        },
        RateValues {
            stream_ref: "Down".to_owned(),
            basis: RateBasis::PerContainerUpdate,
            minimum: " 2 ".to_owned(),
            maximum: "lots".to_owned(),
        },
    ];
    let mut default_rate = None;
    let mut rate_set = None;
    apply_rates(true, &default, &rows, &mut default_rate, &mut rate_set);
    assert!(default_rate.is_some());
    let set = rate_set.unwrap();
    assert_eq!(set.len(), 1);
    assert_eq!(set[0].stream_ref, "Down");
    assert_eq!(set[0].minimum_value.as_deref(), Some("2"));
    assert!(set[0].maximum_value.is_none());

    let mut rate_set = None;
    apply_rates(false, &default, &rows[..1].iter().map(|r| RateValues {
        stream_ref: r.stream_ref.clone(),
        basis: r.basis,
        minimum: r.minimum.clone(),
        maximum: r.maximum.clone(),
    }).collect(), &mut default_rate, &mut rate_set);
    assert!(default_rate.is_none());
    assert!(rate_set.is_none());
}

#[test]
fn dynamic_value_fields_are_loaded() {
    let value = DynamicValue {
        parameter_instance_ref: InstanceRef {
            parameter_ref: "packetLength".to_owned(),
            instance: -1,
            use_calibrated_value: false,
        },
        linear_adjustment: Some(LinearAdjustment {
            slope: "8".to_owned(),
            intercept: "16".to_owned(),
        }),
    };
    let values = DynamicValues::from_value(Some(&value));
    assert_eq!(values.parameter_ref, "packetLength");
    assert_eq!(values.instance, "-1");
    assert!(!values.use_calibrated_value);
    assert_eq!(values.slope, "8");
    assert_eq!(values.intercept, "16");
}

#[test]
fn dynamic_value_form_falls_back_to_defaults() {
    let mut values = DynamicValues::from_value(None);
    assert_eq!(values.instance, "0");
    assert!(values.use_calibrated_value);
    values.instance = "x".to_owned();
    values.linear_adjustment_present = true;
    values.slope = "steep".to_owned();
    values.intercept = " 2.5 ".to_owned();
    let value = dynamic_value(&values);
    assert_eq!(value.parameter_instance_ref.instance, 0);
    let adjustment = value.linear_adjustment.unwrap();
    assert_eq!(adjustment.slope, "1");
    assert_eq!(adjustment.intercept, "2.5");
}

#[test]
fn consequence_levels_round_trip() {
    for level in [
        ConsequenceLevel::Normal,
        ConsequenceLevel::Vital,
        ConsequenceLevel::Critical,
        ConsequenceLevel::Forbidden,
        ConsequenceLevel::User1,
        ConsequenceLevel::User2,
    ] {
        assert_eq!(level_from_xtce(&level_to_xtce(level)), level);
    }
}

#[test]
fn significance_rows_trim_their_texts() {
    let mut values = significance_values(None);
    assert_eq!(values.consequence_level, ConsequenceLevel::Normal);
    values.reason_for_warning = "  ".to_owned();
    values.space_system_at_risk = " Payload ".to_owned();
    values.consequence_level = ConsequenceLevel::Critical;
    let s = significance(&values);
    assert!(s.reason_for_warning.is_none());
    assert_eq!(s.space_system_at_risk.as_deref(), Some("Payload"));
    assert_eq!(level_to_xtce(s.consequence_level), "critical");
}

#[test]
fn shown_rates_apply_back_unchanged() {
    let default = RateInStream {
        basis: RateBasis::PerContainerUpdate,
        minimum_value: Some("0.5".to_owned()),
        maximum_value: Some("4".to_owned()),
    };
    let streams = vec![StreamRate {
        basis: RateBasis::PerSecond,
        minimum_value: None,
        maximum_value: Some("10".to_owned()),
        stream_ref: "Down".to_owned(),
    }];
    let default_values = RateValues::from_default(Some(&default));
    let rows: Vec<RateValues> = streams.iter().map(RateValues::from_stream).collect();
    let mut default_rate = None;
    let mut rate_set = None;
    apply_rates(true, &default_values, &rows, &mut default_rate, &mut rate_set);
    let d = default_rate.unwrap();
    assert_eq!(d.basis, RateBasis::PerContainerUpdate);
    assert_eq!(d.minimum_value.as_deref(), Some("0.5"));
    assert_eq!(d.maximum_value.as_deref(), Some("4"));
    let set = rate_set.unwrap();
    assert_eq!(set.len(), 1);
    assert_eq!(set[0].basis, RateBasis::PerSecond);
    assert!(set[0].minimum_value.is_none());
    assert_eq!(set[0].maximum_value.as_deref(), Some("10"));
    assert_eq!(set[0].stream_ref, "Down");
}

#[test]
fn a_shown_container_encoding_applies_back_unchanged() {
    let encoding = ContainerBinaryEncoding {
        error_detect_correct: None,
        size_in_bits: Some(IntegerValue::FixedValue(96)),
        from_binary_transform_algorithm: None,
        to_binary_transform_algorithm: Some(algorithm("to")),
    };
    let values = EncodingValues::from_encoding(Some(&encoding));
    let mut applied = None;
    apply_container_encoding(
        true,
        &values,
        reference("unused"),
        lookup(0),
        None,
        algorithm("from"),
        algorithm("to"),
        &mut applied,
    );
    let e = applied.unwrap();
    assert!(matches!(e.size_in_bits, Some(IntegerValue::FixedValue(96))));
    assert!(e.from_binary_transform_algorithm.is_none());
    assert_eq!(e.to_binary_transform_algorithm.unwrap().name, "to");
    assert!(e.error_detect_correct.is_none());
}
