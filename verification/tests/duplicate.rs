use xtce_editor::alias::Alias;
use xtce_editor::ancillary::AncillaryRow;
use xtce_editor::document::{
    apply_element, apply_form, apply_message_set, apply_space_system, duplicate_element,
    ElementEdit,
};
use xtce_editor::header::HeaderValues;
use xtce_editor::duplicate::duplicate_item;
use xtce_editor::model::{ElementKind, ElementSelection, Entry, EntryVariant, MetaData, SpaceSystem};

fn entry(variant: EntryVariant, name: &str, content: &str) -> Entry {
    Entry {
        variant,
        name: name.to_owned(),
        content: content.to_owned(),
    }
}

fn empty_meta() -> MetaData {
    MetaData {
        parameter_type_set: None,
        parameter_set: None,
        container_set: None,
        message_set: None,
        stream_set: None,
        algorithm_set: None,
        argument_type_set: None,
        meta_command_set: None,
        command_container_set: None,
    }
}

fn system(name: &str) -> SpaceSystem {
    SpaceSystem {
        name: name.to_owned(),
        header: None,
        alias_set: None,
        ancillary_data_set: None,
        telemetry_meta_data: None,
        command_meta_data: None,
        service_set: None,
        space_system: Vec::new(),
    }
}

fn selection(kind: ElementKind) -> ElementSelection {
    ElementSelection {
        system_path: Vec::new(),
        kind,
    }
}

fn names(entries: &[Entry]) -> Vec<&str> {
    entries.iter().map(|e| e.name.as_str()).collect()
}

fn full_system() -> SpaceSystem {
    let mut telemetry = empty_meta();
    telemetry.parameter_type_set = Some(vec![entry(EntryVariant::IntegerParameterType, "T", "t")]);
    telemetry.parameter_set = Some(vec![entry(EntryVariant::Parameter, "P", "p")]);
    telemetry.container_set = Some(vec![entry(EntryVariant::SequenceContainer, "C", "c")]);
    telemetry.message_set = Some(vec![entry(EntryVariant::Message, "M", "m")]);
    telemetry.stream_set = Some(vec![
        entry(EntryVariant::FixedFrameStream, "F", "f"),
        entry(EntryVariant::VariableFrameStream, "V", "v"),
        entry(EntryVariant::CustomStream, "S", "s"),
    ]);
    telemetry.algorithm_set = Some(vec![
        entry(EntryVariant::CustomAlgorithm, "A", "a"),
        entry(EntryVariant::MathAlgorithm, "B", "b"),
    ]);
    let mut command = empty_meta();
    command.parameter_type_set = Some(vec![entry(EntryVariant::FloatParameterType, "CT", "ct")]);
    command.parameter_set = Some(vec![entry(EntryVariant::Parameter, "CP", "cp")]);
    command.argument_type_set = Some(vec![entry(EntryVariant::StringArgumentType, "AT", "at")]);
    command.meta_command_set = Some(vec![entry(EntryVariant::MetaCommand, "MC", "mc")]);
    command.command_container_set = Some(vec![entry(EntryVariant::CommandContainer, "CC", "cc")]);
    command.stream_set = Some(vec![entry(EntryVariant::CustomStream, "CS", "cs")]);
    command.algorithm_set = Some(vec![entry(EntryVariant::MathAlgorithm, "CM", "cm")]);
    let mut root = system("Root");
    root.telemetry_meta_data = Some(telemetry);
    root.command_meta_data = Some(command);
    root.service_set = Some(vec![entry(EntryVariant::Service, "Svc", "svc")]);
    root
}

#[test]
fn duplicate_all_collection_kinds_preserves_contents_and_xml_round_trip() {
    let cases = [
        (ElementKind::TelemetryParameterType(0), ElementKind::TelemetryParameterType(1), "T"),
        (ElementKind::TelemetryParameter(0), ElementKind::TelemetryParameter(1), "P"),
        (ElementKind::SequenceContainer(0), ElementKind::SequenceContainer(1), "C"),
        (ElementKind::Message(0), ElementKind::Message(1), "M"),
        (ElementKind::TelemetryFixedFrameStream(0), ElementKind::TelemetryFixedFrameStream(3), "F"),
        (ElementKind::TelemetryCustomAlgorithm(0), ElementKind::TelemetryCustomAlgorithm(2), "A"),
        (ElementKind::CommandParameterType(0), ElementKind::CommandParameterType(1), "CT"),
        (ElementKind::CommandParameter(0), ElementKind::CommandParameter(1), "CP"),
        (ElementKind::ArgumentType(0), ElementKind::ArgumentType(1), "AT"),
        (ElementKind::MetaCommand(0), ElementKind::MetaCommand(1), "MC"),
        (ElementKind::CommandContainer(0), ElementKind::CommandContainer(1), "CC"),
        (ElementKind::CommandCustomStream(0), ElementKind::CommandCustomStream(1), "CS"),
        (ElementKind::CommandMathAlgorithm(0), ElementKind::CommandMathAlgorithm(1), "CM"),
        (ElementKind::Service(0), ElementKind::Service(1), "Svc"),
    ];
    for (selected, _, label) in cases.iter() {
        let mut root = full_system();
        let kind = duplicate_element(&mut root, &selection(*selected)).unwrap();
        assert_eq!(std::mem::discriminant(&kind), std::mem::discriminant(selected));
        let (set, index) = match kind {
            ElementKind::TelemetryParameterType(i) => (root.telemetry_meta_data.as_ref().unwrap().parameter_type_set.as_ref().unwrap(), i),
            ElementKind::TelemetryParameter(i) => (root.telemetry_meta_data.as_ref().unwrap().parameter_set.as_ref().unwrap(), i),
            ElementKind::SequenceContainer(i) => (root.telemetry_meta_data.as_ref().unwrap().container_set.as_ref().unwrap(), i),
            ElementKind::Message(i) => (root.telemetry_meta_data.as_ref().unwrap().message_set.as_ref().unwrap(), i),
            ElementKind::TelemetryFixedFrameStream(i) => (root.telemetry_meta_data.as_ref().unwrap().stream_set.as_ref().unwrap(), i),
            ElementKind::TelemetryCustomAlgorithm(i) => (root.telemetry_meta_data.as_ref().unwrap().algorithm_set.as_ref().unwrap(), i),
            ElementKind::CommandParameterType(i) => (root.command_meta_data.as_ref().unwrap().parameter_type_set.as_ref().unwrap(), i),
            ElementKind::CommandParameter(i) => (root.command_meta_data.as_ref().unwrap().parameter_set.as_ref().unwrap(), i),
            ElementKind::ArgumentType(i) => (root.command_meta_data.as_ref().unwrap().argument_type_set.as_ref().unwrap(), i),
            ElementKind::MetaCommand(i) => (root.command_meta_data.as_ref().unwrap().meta_command_set.as_ref().unwrap(), i),
            ElementKind::CommandContainer(i) => (root.command_meta_data.as_ref().unwrap().command_container_set.as_ref().unwrap(), i),
            ElementKind::CommandCustomStream(i) => (root.command_meta_data.as_ref().unwrap().stream_set.as_ref().unwrap(), i),
            ElementKind::CommandMathAlgorithm(i) => (root.command_meta_data.as_ref().unwrap().algorithm_set.as_ref().unwrap(), i),
            ElementKind::Service(i) => (root.service_set.as_ref().unwrap(), i),
            other => panic!("unexpected kind {other:?}"),
        };
        assert_eq!(index + 1, set.len());
        let copy = &set[index];
        assert_eq!(copy.name, format!("{label}_copy"));
        let original = set.iter().find(|e| e.name == *label).unwrap();
        assert_eq!(copy.content, original.content);
        assert_eq!(copy.variant, original.variant);
    }
}

#[test]
fn duplicate_fixed_stream_copy_is_appended_after_the_other_streams() {
    let mut root = full_system();
    let kind = duplicate_element(&mut root, &selection(ElementKind::TelemetryFixedFrameStream(0)));
    assert_eq!(kind, Some(ElementKind::TelemetryFixedFrameStream(3)));
    let streams = root.telemetry_meta_data.as_ref().unwrap().stream_set.as_ref().unwrap();
    assert_eq!(names(streams), ["F", "V", "S", "F_copy"]);
}

#[test]
fn duplicate_container_in_nested_system_is_independent_and_keeps_references() {
    let mut payload = system("Payload");
    let mut telemetry = empty_meta();
    telemetry.container_set = Some(vec![entry(
        EntryVariant::SequenceContainer,
        "Packet",
        "<EntryList><ParameterRefEntry parameterRef=\"SampleCount\"/></EntryList>",
    )]);
    payload.telemetry_meta_data = Some(telemetry);
    let mut root = system("Root");
    root.space_system = vec![payload, system("Sibling")];

    let selected = ElementSelection {
        system_path: vec![0],
        kind: ElementKind::SequenceContainer(0),
    };
    assert_eq!(
        duplicate_element(&mut root, &selected),
        Some(ElementKind::SequenceContainer(1))
    );
    let items = root.space_system[0]
        .telemetry_meta_data
        .as_mut()
        .unwrap()
        .container_set
        .as_mut()
        .unwrap();
    assert_eq!(names(items), ["Packet", "Packet_copy"]);
    assert_eq!(items[1].content, items[0].content);
    items[1].content = "changed".to_owned();
    assert!(items[0].content.contains("SampleCount"));
    assert!(root.space_system[1].telemetry_meta_data.is_none());
    assert!(root.telemetry_meta_data.is_none());
}

#[test]
fn duplicate_names_avoid_collisions_across_variants_in_the_same_set() {
    let mut root = system("Root");
    let mut telemetry = empty_meta();
    telemetry.parameter_type_set = Some(vec![
        entry(EntryVariant::IntegerParameterType, "Value", ""),
        entry(EntryVariant::BooleanParameterType, "Value_copy", ""),
        entry(EntryVariant::FloatParameterType, "Other", ""),
    ]);
    root.telemetry_meta_data = Some(telemetry);
    let selected = selection(ElementKind::TelemetryParameterType(0));
    for index in 3..=4 {
        assert_eq!(
            duplicate_element(&mut root, &selected),
            Some(ElementKind::TelemetryParameterType(index))
        );
    }
    let set = root
        .telemetry_meta_data
        .as_ref()
        .unwrap()
        .parameter_type_set
        .as_ref()
        .unwrap();
    assert_eq!(
        names(set),
        ["Value", "Value_copy", "Other", "Value_copy2", "Value_copy3"]
    );
    assert_eq!(set[3].variant, EntryVariant::IntegerParameterType);
}

#[test]
fn duplicate_reference_only_entries_keeps_the_target() {
    let mut root = system("Root");
    let mut telemetry = empty_meta();
    telemetry.parameter_set = Some(vec![entry(EntryVariant::ParameterRef, "../Value", "")]);
    let mut command = empty_meta();
    command.meta_command_set = Some(vec![entry(EntryVariant::MetaCommandRef, "../Command", "")]);
    root.telemetry_meta_data = Some(telemetry);
    root.command_meta_data = Some(command);

    assert_eq!(
        duplicate_element(&mut root, &selection(ElementKind::TelemetryParameter(0))),
        Some(ElementKind::TelemetryParameter(1))
    );
    assert_eq!(
        duplicate_element(&mut root, &selection(ElementKind::MetaCommand(0))),
        Some(ElementKind::MetaCommand(1))
    );
    let parameters = root.telemetry_meta_data.as_ref().unwrap().parameter_set.as_ref().unwrap();
    assert_eq!(names(parameters), ["../Value", "../Value"]);
    let commands = root.command_meta_data.as_ref().unwrap().meta_command_set.as_ref().unwrap();
    assert_eq!(names(commands), ["../Command", "../Command"]);
}

#[test]
fn duplicate_invalid_selection_leaves_document_unchanged() {
    let mut root = system("Root");
    let mut telemetry = empty_meta();
    telemetry.parameter_set = Some(vec![entry(EntryVariant::Parameter, "Value", "v")]);
    root.telemetry_meta_data = Some(telemetry);
    let before = format!("{root:?}");
    for selected in [
        selection(ElementKind::SpaceSystem),
        selection(ElementKind::TelemetryParameterSet),
        selection(ElementKind::TelemetryParameter(999)),
        selection(ElementKind::SequenceContainer(0)),
        selection(ElementKind::CommandParameter(0)),
        selection(ElementKind::Service(0)),
        ElementSelection {
            system_path: vec![999],
            kind: ElementKind::TelemetryParameter(0),
        },
    ] {
        assert_eq!(duplicate_element(&mut root, &selected), None);
        assert_eq!(format!("{root:?}"), before);
    }
}

#[test]
fn the_numbered_suffix_stays_within_the_collection() {
    let mut items = vec![
        entry(EntryVariant::Parameter, "p", ""),
        entry(EntryVariant::Parameter, "p_copy", ""),
        entry(EntryVariant::Parameter, "p_copy2", ""),
        entry(EntryVariant::Parameter, "p_copy3", ""),
    ];
    assert_eq!(duplicate_item(&mut items, 0), Some(4));
    assert_eq!(items[4].name, "p_copy4");
    assert!(duplicate_item(&mut items, 9).is_none());
    assert_eq!(items.len(), 5);
}

#[test]
fn applying_an_element_replaces_only_an_entry_that_is_there() {
    let mut s = system("Root");
    let mut meta = empty_meta();
    meta.parameter_set = Some(vec![entry(EntryVariant::Parameter, "a", "x")]);
    s.telemetry_meta_data = Some(meta);
    assert!(apply_element(&mut s, ElementKind::TelemetryParameter(0), entry(EntryVariant::Parameter, "b", "y")));
    let set = s.telemetry_meta_data.as_ref().unwrap().parameter_set.as_ref().unwrap();
    assert_eq!(set.len(), 1);
    assert_eq!(set[0].name, "b");
    assert_eq!(set[0].content, "y");
    assert!(!apply_element(&mut s, ElementKind::TelemetryParameter(3), entry(EntryVariant::Parameter, "c", "")));
    assert!(!apply_element(&mut s, ElementKind::CommandParameter(0), entry(EntryVariant::Parameter, "c", "")));
    assert!(!apply_element(&mut s, ElementKind::TelemetryMetaData, entry(EntryVariant::Parameter, "c", "")));
    let set = s.telemetry_meta_data.as_ref().unwrap().parameter_set.as_ref().unwrap();
    assert_eq!(set[0].name, "b");
    assert!(s.command_meta_data.is_none());
}

fn header_values(version: &str) -> HeaderValues {
    HeaderValues {
        version: version.to_owned(),
        date: String::new(),
        classification: "NotClassified".to_owned(),
        classification_instructions: String::new(),
        validation_status: "Working".to_owned(),
        authors: "Ada\nGrace".to_owned(),
        notes: String::new(),
        history: String::new(),
    }
}

#[test]
fn the_space_system_element_takes_its_sub_forms() {
    let mut s = full_system();
    let aliases = vec![Alias { name_space: "ops".to_owned(), alias: "ROOT".to_owned() }];
    let ancillary = vec![AncillaryRow {
        name: "owner".to_owned(),
        mime_type: String::new(),
        href: String::new(),
        content: "team".to_owned(),
    }];
    assert!(apply_form(
        &mut s,
        ElementKind::SpaceSystem,
        ElementEdit::SpaceSystem {
            alias_rows: aliases,
            ancillary_rows: ancillary,
            header: header_values(" 1.0 "),
        },
    ));
    let alias_set = s.alias_set.as_ref().unwrap();
    assert_eq!(alias_set.len(), 1);
    assert_eq!(alias_set[0].alias, "ROOT");
    assert_eq!(s.ancillary_data_set.as_ref().unwrap()[0].name, "owner");
    let header = s.header.as_ref().unwrap();
    assert_eq!(header.version.as_deref(), Some("1.0"));
    assert_eq!(header.author_set.as_ref().unwrap().len(), 2);
    assert_eq!(s.name, "Root");

    apply_space_system(&mut s, &Vec::new(), &Vec::new(), &header_values(""));
    assert!(s.alias_set.is_none());
    assert!(s.ancillary_data_set.is_none());
    assert!(s.header.as_ref().unwrap().version.is_none());
}

#[test]
fn the_message_set_needs_telemetry_metadata() {
    let mut s = full_system();
    let set = Some(vec![entry(EntryVariant::Message, "N", "n")]);
    assert!(apply_message_set(&mut s, set));
    let messages = s.telemetry_meta_data.as_ref().unwrap().message_set.as_ref().unwrap();
    assert_eq!(messages[0].name, "N");
    assert!(apply_form(&mut s, ElementKind::MessageSet, ElementEdit::MessageSet(None)));
    assert!(s.telemetry_meta_data.as_ref().unwrap().message_set.is_none());

    let mut bare = system("Bare");
    assert!(!apply_form(&mut bare, ElementKind::MessageSet, ElementEdit::MessageSet(None)));
    assert!(bare.telemetry_meta_data.is_none());
}

#[test]
fn a_form_for_a_missing_element_changes_nothing() {
    let mut s = system("Root");
    assert!(!apply_form(
        &mut s,
        ElementKind::Service(0),
        ElementEdit::Item(entry(EntryVariant::Service, "S", "")),
    ));
    assert!(!apply_form(
        &mut s,
        ElementKind::TelemetryMetaData,
        ElementEdit::Item(entry(EntryVariant::Parameter, "P", "")),
    ));
    assert!(!apply_form(&mut s, ElementKind::Message(0), ElementEdit::MessageSet(None)));
    assert!(s.service_set.is_none());
    assert!(s.header.is_none());
}
