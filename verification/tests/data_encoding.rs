use xtce_editor::boolean::InstanceRef;
use xtce_editor::dynamic::DynamicValue;
use xtce_editor::algorithm::InputAlgorithm;
use xtce_editor::lookup::DiscreteLookupList;
use xtce_editor::encoding::{
    BinaryDataEncoding, BinarySizeKind, BitOrder, ByteOrder, DataEncoding, DataEncodingKind,
    DataEncodingValues, FloatEncoding, FloatSize, IntegerDataEncoding, IntegerEncoding,
    IntegerValue, SizeInBits, StringContent, StringEncoding, StringSizeKind, TypeItem,
    apply_data_error_detect_correct, apply_string_size, binary_discrete_value, binary_dynamic_value,
    binary_from_transform, binary_size, binary_size_kind, binary_to_transform, byte_order_from_str,
    byte_order_label, data_error_detect_correct, default_encoding, encoding_kind_of_items,
    set_argument_data_encoding_kind, set_data_encoding_kind, string_fixed_size, string_size_kind,
};

fn algorithm(name: &str) -> InputAlgorithm {
    InputAlgorithm {
        short_description: None,
        name: name.to_owned(),
        long_description: None,
        alias_set: None,
        ancillary_data_set: None,
        algorithm_text: None,
        external_algorithm_set: None,
        input_set: None,
    }
}

fn default_binary() -> BinaryDataEncoding {
    match default_encoding(DataEncodingKind::Binary, false) {
        DataEncoding::Binary(b) => b,
        _ => panic!("expected a binary encoding"),
    }
}

fn default_string() -> DataEncoding {
    default_encoding(DataEncodingKind::String, false)
}

fn values(
    bit_order: &str,
    byte_order: &str,
    encoding: &str,
    size_in_bits: &str,
    change_threshold: &str,
) -> DataEncodingValues {
    DataEncodingValues {
        bit_order: bit_order.to_owned(),
        byte_order: byte_order.to_owned(),
        encoding: encoding.to_owned(),
        size_in_bits: size_in_bits.to_owned(),
        change_threshold: change_threshold.to_owned(),
    }
}

#[test]
fn arbitrary_byte_order_falls_back_to_the_common_default() {
    let arbitrary = ByteOrder::Custom("1,0,3,2".to_owned());

    assert_eq!(byte_order_label(&arbitrary), "mostSignificantByteFirst");
    assert!(matches!(
        byte_order_from_str("1,0,3,2"),
        ByteOrder::MostSignificantByteFirst
    ));
}

#[test]
fn applying_integer_encoding_values_preserves_nested_configuration() {
    let mut encoding = DataEncoding::Integer(IntegerDataEncoding {
        bit_order: BitOrder::MostSignificantFirst,
        byte_order: ByteOrder::MostSignificantByteFirst,
        encoding: IntegerEncoding::Unsigned,
        size_in_bits: 8,
        change_threshold: None,
        error_detect_correct: Some(Vec::new()),
        default_calibrator: None,
    });
    values(
        "leastSignificantBitFirst",
        "leastSignificantByteFirst",
        "twosComplement",
        "16",
        "2",
    )
    .apply_to(&mut encoding);

    let DataEncoding::Integer(encoding) = encoding else {
        panic!("expected an integer encoding");
    };
    assert!(matches!(encoding.bit_order, BitOrder::LeastSignificantFirst));
    assert!(matches!(encoding.encoding, IntegerEncoding::TwosComplement));
    assert_eq!(encoding.size_in_bits, 16);
    assert_eq!(encoding.change_threshold, Some(2));
    assert!(encoding.error_detect_correct.is_some());
}

#[test]
fn applying_binary_size_updates_only_a_fixed_size() {
    let mut encoding = DataEncoding::Binary(default_binary());
    values("mostSignificantBitFirst", "mostSignificantByteFirst", "", "32", "").apply_to(&mut encoding);

    let DataEncoding::Binary(encoding) = encoding else {
        panic!("expected a binary encoding");
    };
    assert!(matches!(encoding.size_in_bits, IntegerValue::FixedValue(32)));
}

#[test]
fn binary_size_kind_exposes_dynamic_and_lookup_values() {
    let mut encoding = default_binary();
    encoding.size_in_bits = IntegerValue::DynamicValue(DynamicValue {
        parameter_instance_ref: InstanceRef {
            parameter_ref: "length".to_owned(),
            instance: 0,
            use_calibrated_value: true,
        },
        linear_adjustment: None,
    });
    let e = DataEncoding::Binary(encoding);
    assert_eq!(binary_size_kind(Some(&e)), BinarySizeKind::Dynamic);

    let DataEncoding::Binary(mut encoding) = e else {
        panic!("expected a binary encoding");
    };
    encoding.size_in_bits = IntegerValue::DiscreteLookupList(DiscreteLookupList {
        default_value: 8,
        discrete_lookup: Vec::new(),
    });
    let e = DataEncoding::Binary(encoding);
    assert_eq!(binary_size_kind(Some(&e)), BinarySizeKind::DiscreteLookup);
}

#[test]
fn string_error_detection_is_available_to_the_common_form() {
    let mut encoding = default_string();
    if let DataEncoding::String(s) = &mut encoding {
        s.content.insert(0, StringContent::ErrorDetectCorrect(Vec::new()));
    }

    assert!(data_error_detect_correct(Some(&encoding)).is_some());
}

#[test]
fn fixed_string_termination_is_available_to_the_form() {
    let mut encoding = default_string();
    if let DataEncoding::String(s) = &mut encoding {
        for item in s.content.iter_mut() {
            if let StringContent::SizeInBits(size) = item {
                size.termination_char = Some("00".to_owned());
                break;
            }
        }
    }

    assert_eq!(
        string_fixed_size(Some(&encoding)).and_then(|size| size.termination_char.as_deref()),
        Some("00")
    );
}

#[test]
fn fixed_string_leading_size_is_available_to_the_form() {
    let mut encoding = default_string();
    if let DataEncoding::String(s) = &mut encoding {
        for item in s.content.iter_mut() {
            if let StringContent::SizeInBits(size) = item {
                size.leading_size = Some(12);
                break;
            }
        }
    }

    assert_eq!(
        string_fixed_size(Some(&encoding)).and_then(|size| size.leading_size),
        Some(12)
    );
}

#[test]
fn binary_from_transform_is_available_to_the_form() {
    let mut encoding = default_binary();
    encoding.from_binary_transform_algorithm = Some(algorithm("decodeValue"));
    let e = DataEncoding::Binary(encoding);

    assert_eq!(
        binary_from_transform(Some(&e)).map(|algorithm| algorithm.name.as_str()),
        Some("decodeValue")
    );
}

#[test]
fn binary_to_transform_is_available_to_the_form() {
    let mut encoding = default_binary();
    encoding.to_binary_transform_algorithm = Some(algorithm("encodeValue"));
    let e = DataEncoding::Binary(encoding);

    assert_eq!(
        binary_to_transform(Some(&e)).map(|algorithm| algorithm.name.as_str()),
        Some("encodeValue")
    );
}

#[test]
fn changing_the_encoding_kind_preserves_other_parameter_type_content() {
    let mut content = vec![
        TypeItem::Leading("AncillaryDataSet"),
        TypeItem::Encoding(default_encoding(DataEncodingKind::Integer, false)),
    ];

    set_data_encoding_kind(&mut content, Some(DataEncodingKind::String));

    assert!(matches!(content[0], TypeItem::Leading("AncillaryDataSet")));
    let TypeItem::Encoding(DataEncoding::String(encoding)) = &content[1] else {
        panic!("expected a StringDataEncoding");
    };
    assert!(matches!(
        encoding.content.first(),
        Some(StringContent::SizeInBits(_))
    ));
}

#[test]
fn selecting_none_removes_only_the_data_encoding() {
    let mut content = vec![
        TypeItem::Leading("AncillaryDataSet"),
        TypeItem::Encoding(default_encoding(DataEncodingKind::Integer, false)),
    ];

    set_data_encoding_kind(&mut content, None);

    assert_eq!(content.len(), 1);
    assert!(matches!(content[0], TypeItem::Leading("AncillaryDataSet")));
}

#[test]
fn choosing_the_current_kind_keeps_the_configured_encoding() {
    let mut encoding = default_encoding(DataEncodingKind::Integer, false);
    if let DataEncoding::Integer(i) = &mut encoding {
        i.size_in_bits = 12;
    }
    let mut content = vec![TypeItem::Other("UnitSet"), TypeItem::Encoding(encoding)];

    set_data_encoding_kind(&mut content, Some(DataEncodingKind::Integer));

    let TypeItem::Encoding(DataEncoding::Integer(i)) = &content[1] else {
        panic!("expected the integer encoding");
    };
    assert_eq!(i.size_in_bits, 12);
    assert_eq!(encoding_kind_of_items(&content), Some(DataEncodingKind::Integer));
}

#[test]
fn a_new_encoding_goes_after_the_leading_items() {
    let mut content = vec![
        TypeItem::Leading("LongDescription"),
        TypeItem::Other("DefaultAlarm"),
        TypeItem::Leading("AliasSet"),
    ];

    set_data_encoding_kind(&mut content, Some(DataEncodingKind::Float));

    assert_eq!(content.len(), 4);
    assert!(matches!(content[0], TypeItem::Leading("LongDescription")));
    assert!(matches!(
        content[1],
        TypeItem::Encoding(DataEncoding::Float(_))
    ));
    assert!(matches!(content[2], TypeItem::Other("DefaultAlarm")));
    assert!(matches!(content[3], TypeItem::Leading("AliasSet")));
}

#[test]
fn a_new_argument_string_encoding_has_no_size() {
    let mut content: Vec<TypeItem<&str>> = Vec::new();

    set_argument_data_encoding_kind(&mut content, Some(DataEncodingKind::String));

    let TypeItem::Encoding(DataEncoding::String(s)) = &content[0] else {
        panic!("expected a string encoding");
    };
    assert!(s.content.is_empty());
    assert!(matches!(s.encoding, StringEncoding::Utf8));
}

#[test]
fn default_values_show_the_schema_defaults() {
    let v = DataEncodingValues::defaults(Some(DataEncodingKind::Float));
    assert_eq!(v.bit_order, "mostSignificantBitFirst");
    assert_eq!(v.byte_order, "mostSignificantByteFirst");
    assert_eq!(v.encoding, "IEEE754_1985");
    assert_eq!(v.size_in_bits, "32");
    assert_eq!(v.change_threshold, "");

    let v = DataEncodingValues::defaults(Some(DataEncodingKind::Integer));
    assert_eq!(v.encoding, "unsigned");
    assert_eq!(v.size_in_bits, "8");

    let v = DataEncodingValues::defaults(Some(DataEncodingKind::String));
    assert_eq!(v.encoding, "UTF-8");
    assert_eq!(v.size_in_bits, "8");

    let v = DataEncodingValues::defaults(None);
    assert_eq!(v.bit_order, "mostSignificantBitFirst");
    assert_eq!(v.size_in_bits, "");
}

#[test]
fn form_values_of_an_encoding_apply_back_unchanged() {
    let mut encoding = default_string();
    let v = DataEncodingValues::from_encoding(Some(&encoding));
    v.apply_to(&mut encoding);
    let DataEncoding::String(s) = &encoding else {
        panic!("expected a string encoding");
    };
    assert!(matches!(s.content[0], StringContent::SizeInBits(SizeInBits { fixed_value: 8, .. })));

    let mut binary = DataEncoding::Binary(default_binary());
    let v = DataEncodingValues::from_encoding(Some(&binary));
    assert_eq!(v.size_in_bits, "8");
    v.apply_to(&mut binary);
    assert!(matches!(
        binary,
        DataEncoding::Binary(BinaryDataEncoding { size_in_bits: IntegerValue::FixedValue(8), .. })
    ));
}

#[test]
fn float_values_apply_labels_and_thresholds() {
    let mut encoding = default_encoding(DataEncodingKind::Float, false);
    values(" leastSignificantBitFirst ", "bogus", "MILSTD_1750A", "64", "0.5").apply_to(&mut encoding);
    let DataEncoding::Float(f) = &encoding else {
        panic!("expected a float encoding");
    };
    assert!(matches!(f.bit_order, BitOrder::LeastSignificantFirst));
    assert!(matches!(f.byte_order, ByteOrder::MostSignificantByteFirst));
    assert!(matches!(f.encoding, FloatEncoding::Milstd1750A));
    assert!(matches!(f.size_in_bits, FloatSize::Bits64));
    assert_eq!(f.change_threshold.as_deref(), Some("0.5"));

    values("", "", "", "", "half").apply_to(&mut encoding);
    let DataEncoding::Float(f) = &encoding else {
        panic!("expected a float encoding");
    };
    assert!(matches!(f.bit_order, BitOrder::LeastSignificantFirst));
    assert!(matches!(f.size_in_bits, FloatSize::Bits64));
    assert_eq!(f.change_threshold, None);
}

#[test]
fn string_size_kinds_replace_the_size_after_leading_error_detection() {
    let mut content = vec![
        StringContent::ErrorDetectCorrect(Vec::new()),
        StringContent::SizeInBits(SizeInBits {
            fixed_value: 16,
            termination_char: None,
            leading_size: None,
        }),
    ];
    apply_string_size(&mut content, StringSizeKind::Variable, "", 64);
    assert_eq!(content.len(), 2);
    assert!(matches!(content[0], StringContent::ErrorDetectCorrect(_)));
    assert!(matches!(content[1], StringContent::Variable(64)));

    apply_string_size(&mut content, StringSizeKind::Fixed, " 24 ", 0);
    assert_eq!(content.len(), 2);
    assert!(matches!(
        content[1],
        StringContent::SizeInBits(SizeInBits { fixed_value: 24, .. })
    ));

    let mut none: Vec<StringContent> = Vec::new();
    apply_string_size(&mut none, StringSizeKind::Fixed, "wide", 0);
    assert!(matches!(
        none[0],
        StringContent::SizeInBits(SizeInBits { fixed_value: 0, .. })
    ));
}

#[test]
fn string_size_kind_follows_a_variable_size() {
    let mut encoding = default_string();
    assert_eq!(string_size_kind(Some(&encoding)), StringSizeKind::Fixed);
    if let DataEncoding::String(s) = &mut encoding {
        apply_string_size(&mut s.content, StringSizeKind::Variable, "", 128);
    }
    assert_eq!(string_size_kind(Some(&encoding)), StringSizeKind::Variable);
}

#[test]
fn error_detection_is_set_replaced_and_removed() {
    let mut encoding = default_string();
    apply_data_error_detect_correct(&mut encoding, Some(Vec::new()));
    let DataEncoding::String(s) = &encoding else {
        panic!("expected a string encoding");
    };
    assert_eq!(s.content.len(), 2);
    assert!(matches!(s.content[0], StringContent::ErrorDetectCorrect(_)));

    apply_data_error_detect_correct(&mut encoding, Some(Vec::new()));
    let DataEncoding::String(s) = &encoding else {
        panic!("expected a string encoding");
    };
    assert_eq!(s.content.len(), 2);

    apply_data_error_detect_correct(&mut encoding, None);
    assert!(data_error_detect_correct(Some(&encoding)).is_none());
    let DataEncoding::String(s) = &encoding else {
        panic!("expected a string encoding");
    };
    assert_eq!(s.content.len(), 1);

    let mut binary = DataEncoding::Binary(default_binary());
    apply_data_error_detect_correct(&mut binary, Some(Vec::new()));
    assert!(data_error_detect_correct(Some(&binary)).is_some());
}

#[test]
fn binary_size_sub_forms_get_the_size_values() {
    let mut encoding = default_binary();
    encoding.size_in_bits = IntegerValue::DynamicValue(DynamicValue {
        parameter_instance_ref: InstanceRef {
            parameter_ref: "length".to_owned(),
            instance: 0,
            use_calibrated_value: true,
        },
        linear_adjustment: None,
    });
    let e = DataEncoding::Binary(encoding);
    assert_eq!(
        binary_dynamic_value(Some(&e)).map(|d| d.parameter_instance_ref.parameter_ref.as_str()),
        Some("length")
    );
    assert!(binary_discrete_value(Some(&e)).is_none());
    assert!(binary_size(Some(&e)).is_some());

    let DataEncoding::Binary(mut encoding) = e else {
        panic!("expected a binary encoding");
    };
    encoding.size_in_bits = IntegerValue::DiscreteLookupList(DiscreteLookupList {
        default_value: 12,
        discrete_lookup: Vec::new(),
    });
    let e = DataEncoding::Binary(encoding);
    assert_eq!(binary_discrete_value(Some(&e)).map(|l| l.default_value), Some(12));
    assert!(binary_dynamic_value(Some(&e)).is_none());
    assert!(binary_size(Some(&default_string())).is_none());
    assert!(binary_size(None).is_none());
}
