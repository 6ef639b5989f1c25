use xtce_editor::argument::{
    apply_enumeration_rows, rows_from_argument_type,
    ArgumentBody, ArgumentIndex, ArgumentItem, ArgumentKind, ArgumentValues, CharacterWidth,
    FloatSizeInBits, apply_argument_values, apply_nested_items, default_argument_type,
    encode_nested_items, find_argument_data_encoding, kind, replace_kind,
    set_argument_type_encoding_kind,
};
use xtce_editor::enumeration::{EnumerationRowData, ValueEnumeration};
use xtce_editor::encoding::{DataEncoding, DataEncodingKind, TypeItem, encoding_kind};

fn values(name: &str, initial: &str, long: &str, extra_a: &str, extra_b: &str) -> ArgumentValues {
    ArgumentValues {
        name: name.to_owned(),
        base_or_ref: String::new(),
        initial_value: initial.to_owned(),
        short_description: String::new(),
        long_description: long.to_owned(),
        extra_a: extra_a.to_owned(),
        extra_b: extra_b.to_owned(),
    }
}

#[test]
fn changing_argument_kind_keeps_form_name() {
    let mut value = default_argument_type(ArgumentKind::String);
    replace_kind(&mut value, ArgumentKind::Integer);
    apply_argument_values(&values("CounterArgument", "4", "", "16", "false"), &mut value);

    assert_eq!(kind(&value), ArgumentKind::Integer);
    assert_eq!(value.name, "CounterArgument");
    let ArgumentBody::Integer { size_in_bits, signed, initial_value, .. } = value.body else {
        panic!("expected integer argument")
    };
    assert_eq!(size_in_bits, 16);
    assert!(!signed);
    assert_eq!(initial_value, Some(4));
}

#[test]
fn argument_data_encoding_round_trip() {
    let mut value = default_argument_type(ArgumentKind::Integer);
    set_argument_type_encoding_kind(&mut value, Some(DataEncodingKind::Integer));

    let encoding = find_argument_data_encoding(&value).expect("data encoding present");
    assert_eq!(encoding_kind(encoding), DataEncodingKind::Integer);
    assert!(matches!(encoding, DataEncoding::Integer(_)));
}

#[test]
fn argument_types_without_items_have_no_encoding() {
    let mut value = default_argument_type(ArgumentKind::Array);
    set_argument_type_encoding_kind(&mut value, Some(DataEncodingKind::Binary));
    assert!(find_argument_data_encoding(&value).is_none());
}

#[test]
fn new_argument_types_have_the_required_defaults() {
    let ArgumentBody::Boolean { one_string_value, zero_string_value, .. } =
        default_argument_type(ArgumentKind::Boolean).body
    else {
        panic!("expected boolean argument");
    };
    assert_eq!(one_string_value, "True");
    assert_eq!(zero_string_value, "False");
    assert_eq!(encode_nested_items(Some(&default_argument_type(ArgumentKind::Array))), "0 | 0");
    let v = ArgumentValues::from_type(Some(&default_argument_type(ArgumentKind::Float)));
    assert_eq!(v.extra_a, "32");
    let v = ArgumentValues::from_type(Some(&default_argument_type(ArgumentKind::Integer)));
    assert_eq!(v.extra_a, "32");
    assert_eq!(v.extra_b, "true");
}

#[test]
fn string_argument_values_round_trip_with_the_long_description() {
    let mut value = default_argument_type(ArgumentKind::String);
    apply_argument_values(&values("Label", " x ", "Some text", "[A-Z]+", " 16 "), &mut value);
    let ArgumentBody::String { content, character_width, initial_value, restriction_pattern, .. } =
        &value.body
    else {
        panic!("expected string argument");
    };
    assert!(matches!(character_width, Some(CharacterWidth::Bits16)));
    assert_eq!(initial_value.as_deref(), Some("x"));
    assert_eq!(restriction_pattern.as_deref(), Some("[A-Z]+"));
    assert!(matches!(&content[0], TypeItem::Leading(ArgumentItem::LongDescription(d)) if d == "Some text"));

    let shown = ArgumentValues::from_type(Some(&value));
    assert_eq!(shown.long_description, "Some text");
    assert_eq!(shown.extra_b, "16");

    apply_argument_values(&values("Label", "", "", "", ""), &mut value);
    let ArgumentBody::String { content, character_width, .. } = &value.body else {
        panic!("expected string argument");
    };
    assert!(content.is_empty());
    assert!(character_width.is_none());
}

#[test]
fn float_argument_values_fall_back_to_32_bits() {
    let mut value = default_argument_type(ArgumentKind::Float);
    apply_argument_values(&values("Ratio", "0.5", "", "64", ""), &mut value);
    let ArgumentBody::Float { size_in_bits, initial_value, .. } = &value.body else {
        panic!("expected float argument");
    };
    assert!(matches!(size_in_bits, FloatSizeInBits::Bits64));
    assert_eq!(initial_value.as_deref(), Some("0.5"));
    apply_argument_values(&values("Ratio", "half", "", "48", ""), &mut value);
    let ArgumentBody::Float { size_in_bits, initial_value, .. } = &value.body else {
        panic!("expected float argument");
    };
    assert!(matches!(size_in_bits, FloatSizeInBits::Bits32));
    assert!(initial_value.is_none());
}

#[test]
fn nested_items_set_dimensions_and_members() {
    let mut array = default_argument_type(ArgumentKind::Array);
    apply_nested_items(&mut array, "0 | 7\nbad line\n 1 | 3 ");
    let ArgumentBody::Array { dimensions, .. } = &array.body else {
        panic!("expected array argument");
    };
    assert_eq!(dimensions.len(), 2);
    assert!(matches!(dimensions[0].ending_index, ArgumentIndex::FixedValue(7)));
    assert!(matches!(dimensions[1].starting_index, ArgumentIndex::FixedValue(1)));
    assert_eq!(encode_nested_items(Some(&array)), "0 | 7\n1 | 3");

    apply_nested_items(&mut array, "nothing here");
    assert_eq!(encode_nested_items(Some(&array)), "0 | 7\n1 | 3");

    let mut aggregate = default_argument_type(ArgumentKind::Aggregate);
    apply_nested_items(&mut aggregate, "a | Int8 | 1 | first\nb | Float32\n | Missing");
    let ArgumentBody::Aggregate { members, .. } = &aggregate.body else {
        panic!("expected aggregate argument");
    };
    assert_eq!(members.len(), 2);
    assert_eq!(members[0].initial_value.as_deref(), Some("1"));
    assert_eq!(members[1].type_ref, "Float32");
    assert!(members[1].short_description.is_none());
    assert_eq!(
        encode_nested_items(Some(&aggregate)),
        "a | Int8 | 1 | first\nb | Float32 |  | "
    );
}

#[test]
fn the_base_field_depends_on_the_kind() {
    assert_eq!(
        ArgumentKind::Array.base_field(),
        Some(("Array type reference".to_owned(), "Required".to_owned()))
    );
    assert_eq!(ArgumentKind::Aggregate.base_field(), None);
    assert_eq!(
        ArgumentKind::Float.base_field(),
        Some(("Base type".to_owned(), "Optional; used only for type inheritance".to_owned()))
    );
}

#[test]
fn common_values_show_missing_parts_empty() {
    let v = ArgumentValues::common("Count", Some("Base"), None, Some("short"), "long", "a", "b");
    assert_eq!(v.name, "Count");
    assert_eq!(v.base_or_ref, "Base");
    assert_eq!(v.initial_value, "");
    assert_eq!(v.short_description, "short");
    assert_eq!(v.long_description, "long");
    assert_eq!(v.extra_a, "a");
    assert_eq!(v.extra_b, "b");
    let empty = ArgumentValues::from_type(None);
    assert_eq!(empty.name, "");
    assert_eq!(empty.base_or_ref, "");
}

#[test]
fn argument_enumeration_list_round_trip() {
    let mut value = default_argument_type(ArgumentKind::Enumerated);
    let ArgumentBody::Enumerated { content, .. } = &mut value.body else {
        panic!("expected enumerated argument")
    };
    content.push(TypeItem::Other(ArgumentItem::EnumerationList(vec![ValueEnumeration {
        value: 1,
        max_value: None,
        label: "STATUS_OK".to_string(),
        short_description: Some("Ok".to_string()),
    }])));

    let rows = rows_from_argument_type(Some(&value));
    assert_eq!(rows.len(), 1);
    assert_eq!(rows[0].label, "STATUS_OK");
    assert_eq!(rows[0].value, "1");
}

#[test]
fn other_argument_types_have_no_enumeration_rows() {
    assert!(rows_from_argument_type(None).is_empty());
    assert!(rows_from_argument_type(Some(&default_argument_type(ArgumentKind::Integer))).is_empty());
    assert!(rows_from_argument_type(Some(&default_argument_type(ArgumentKind::Enumerated))).is_empty());
}

#[test]
fn enumeration_rows_apply_to_the_first_list_or_a_new_one() {
    let mut value = default_argument_type(ArgumentKind::Enumerated);
    let rows = vec![
        EnumerationRowData {
            value: " 3 ".to_owned(),
            max_value: String::new(),
            label: " ON ".to_owned(),
            description: String::new(),
        },
        EnumerationRowData {
            value: "x".to_owned(),
            max_value: String::new(),
            label: "BAD".to_owned(),
            description: String::new(),
        },
    ];
    apply_enumeration_rows(&rows, &mut value);
    let shown = rows_from_argument_type(Some(&value));
    assert_eq!(shown.len(), 1);
    assert_eq!(shown[0].value, "3");
    assert_eq!(shown[0].label, "ON");

    apply_enumeration_rows(&Vec::new(), &mut value);
    let ArgumentBody::Enumerated { content, .. } = &value.body else {
        panic!("expected enumerated argument")
    };
    assert_eq!(content.len(), 1);
    let shown = rows_from_argument_type(Some(&value));
    assert_eq!(shown.len(), 1);
    assert_eq!(shown[0].label, "VALUE");

    let mut integer = default_argument_type(ArgumentKind::Integer);
    apply_enumeration_rows(&rows, &mut integer);
    assert!(rows_from_argument_type(Some(&integer)).is_empty());
}
