use xtce_editor::boolean::InstanceRef;
use xtce_editor::dimension::{
    apply_dimensions, index_editor, index_summary, index_value, remove_row, reset, Dimension,
};
use xtce_editor::dynamic::DynamicValue;
use xtce_editor::encoding::{BinarySizeKind, IntegerValue};
use xtce_editor::lookup::DiscreteLookupList;

fn start_reference() -> DynamicValue {
    DynamicValue {
        parameter_instance_ref: InstanceRef {
            parameter_ref: "Start".to_owned(),
            instance: 0,
            use_calibrated_value: true,
        },
        linear_adjustment: None,
    }
}

fn lookup(default_value: i64) -> DiscreteLookupList {
    DiscreteLookupList { default_value, discrete_lookup: Vec::new() }
}

fn fixed(start: u64, end: u64) -> Dimension {
    Dimension {
        starting_index: IntegerValue::FixedValue(start),
        ending_index: IntegerValue::FixedValue(end),
    }
}

#[test]
fn dimension_accepts_all_integer_value_variants() {
    let dimensions = vec![
        fixed(0, 3),
        Dimension {
            starting_index: IntegerValue::DynamicValue(start_reference()),
            ending_index: IntegerValue::DiscreteLookupList(lookup(7)),
        },
    ];
    assert_eq!(dimensions.len(), 2);
    assert_eq!(index_editor(Some(&dimensions[0].ending_index)), (BinarySizeKind::Fixed, "3".to_owned()));
    assert_eq!(
        index_editor(Some(&dimensions[1].starting_index)),
        (BinarySizeKind::Dynamic, "0".to_owned())
    );
    assert_eq!(
        index_editor(Some(&dimensions[1].ending_index)),
        (BinarySizeKind::DiscreteLookup, "0".to_owned())
    );
}

#[test]
fn a_new_index_is_a_fixed_zero() {
    assert_eq!(index_editor(None), (BinarySizeKind::Fixed, "0".to_owned()));
}

#[test]
fn index_value_reads_each_kind() {
    let v = index_value(BinarySizeKind::Fixed, &" 12 ".to_owned(), start_reference(), lookup(1));
    assert!(matches!(v, IntegerValue::FixedValue(12)));
    let v = index_value(BinarySizeKind::Fixed, &"twelve".to_owned(), start_reference(), lookup(1));
    assert!(matches!(v, IntegerValue::FixedValue(0)));
    let v = index_value(BinarySizeKind::Dynamic, &"12".to_owned(), start_reference(), lookup(1));
    match v {
        IntegerValue::DynamicValue(d) => assert_eq!(d.parameter_instance_ref.parameter_ref, "Start"),
        _ => panic!("expected a dynamic index"),
    }
    let v = index_value(BinarySizeKind::DiscreteLookup, &"12".to_owned(), start_reference(), lookup(5));
    assert!(matches!(v, IntegerValue::DiscreteLookupList(DiscreteLookupList { default_value: 5, .. })));
}

#[test]
fn fixed_index_text_reads_back() {
    let (kind, text) = index_editor(Some(&IntegerValue::FixedValue(41)));
    let v = index_value(kind, &text, start_reference(), lookup(0));
    assert!(matches!(v, IntegerValue::FixedValue(41)));
}

#[test]
fn applying_no_rows_keeps_the_dimensions() {
    let mut dimensions = vec![fixed(0, 3)];
    apply_dimensions(Vec::new(), &mut dimensions);
    assert_eq!(dimensions.len(), 1);
    assert!(matches!(dimensions[0].ending_index, IntegerValue::FixedValue(3)));
    apply_dimensions(vec![fixed(1, 2), fixed(0, 9)], &mut dimensions);
    assert_eq!(dimensions.len(), 2);
    assert!(matches!(dimensions[1].ending_index, IntegerValue::FixedValue(9)));
}

#[test]
fn reset_gives_one_row_for_an_array() {
    let rows = reset(true);
    assert_eq!(rows.len(), 1);
    assert!(matches!(rows[0].starting_index, IntegerValue::FixedValue(0)));
    assert!(matches!(rows[0].ending_index, IntegerValue::FixedValue(0)));
    assert!(reset(false).is_empty());
}

#[test]
fn the_last_row_is_not_removed() {
    let mut rows = vec![fixed(0, 1), fixed(0, 2)];
    remove_row(&mut rows, 5);
    assert_eq!(rows.len(), 2);
    remove_row(&mut rows, 0);
    assert_eq!(rows.len(), 1);
    assert!(matches!(rows[0].ending_index, IntegerValue::FixedValue(2)));
    remove_row(&mut rows, 0);
    assert_eq!(rows.len(), 1);
}

#[test]
fn index_summaries_show_the_fixed_text_or_the_kind() {
    assert_eq!(index_summary(BinarySizeKind::Fixed, &" 4".to_owned()), " 4");
    assert_eq!(index_summary(BinarySizeKind::Dynamic, &"4".to_owned()), "Dynamic value");
    assert_eq!(index_summary(BinarySizeKind::DiscreteLookup, &"4".to_owned()), "Discrete lookup");
}
