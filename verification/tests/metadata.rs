use xtce_editor::argument::{default_argument_type, ArgumentKind};
use xtce_editor::metadata::{argument_type_row, command_sections, meta_command_row, section_row};
use xtce_editor::model::{Entry, EntryVariant, MetaData};

fn entry(variant: EntryVariant, name: &str) -> Entry {
    Entry { variant, name: name.to_owned(), content: String::new() }
}

fn empty_metadata() -> MetaData {
    MetaData {
        parameter_type_set: None,
        parameter_set: None,
        container_set: None,
        message_set: None,
        stream_set: None,
        algorithm_set: None,
        argument_type_set: None,
        meta_command_set: None,
        command_container_set: None,
    }
}

#[test]
fn no_metadata_has_no_sections() {
    assert!(command_sections(None).is_empty());
}

#[test]
fn sections_count_the_items_of_each_set() {
    let mut m = empty_metadata();
    m.parameter_set = Some(vec![entry(EntryVariant::Parameter, "p")]);
    m.meta_command_set = Some(vec![
        entry(EntryVariant::MetaCommand, "a"),
        entry(EntryVariant::BlockMetaCommand, "b"),
        entry(EntryVariant::MetaCommandRef, "c"),
    ]);
    let rows = command_sections(Some(&m));
    let expected = [
        ("ParameterTypeSet", "0"),
        ("ParameterSet", "1"),
        ("ArgumentTypeSet", "0"),
        ("MetaCommandSet", "3"),
        ("CommandContainerSet", "0"),
        ("StreamSet", "0"),
        ("AlgorithmSet", "0"),
    ];
    assert_eq!(rows.len(), expected.len());
    for (row, (name, count)) in rows.iter().zip(expected.iter()) {
        assert_eq!(row, &vec![name.to_string(), count.to_string()]);
    }
}

#[test]
fn a_section_row_holds_the_name_and_count() {
    assert_eq!(section_row("StreamSet".chars().collect(), 12), vec!["StreamSet".to_owned(), "12".to_owned()]);
}

#[test]
fn argument_type_rows_name_the_kind() {
    let mut t = default_argument_type(ArgumentKind::Integer);
    t.name = "Count".to_owned();
    assert_eq!(argument_type_row(&t), vec!["IntegerArgumentType".to_owned(), "Count".to_owned()]);
    let mut t = default_argument_type(ArgumentKind::Aggregate);
    t.name = "Packet".to_owned();
    assert_eq!(argument_type_row(&t), vec!["AggregateArgumentType".to_owned(), "Packet".to_owned()]);
}

#[test]
fn meta_command_rows_name_the_kind() {
    assert_eq!(
        meta_command_row(&entry(EntryVariant::MetaCommand, "Reset")),
        vec!["MetaCommand".to_owned(), "Reset".to_owned()]
    );
    assert_eq!(
        meta_command_row(&entry(EntryVariant::MetaCommandRef, "Other/Reset")),
        vec!["MetaCommandRef".to_owned(), "Other/Reset".to_owned()]
    );
    assert_eq!(
        meta_command_row(&entry(EntryVariant::BlockMetaCommand, "Sequence")),
        vec!["BlockMetaCommand".to_owned(), "Sequence".to_owned()]
    );
}
