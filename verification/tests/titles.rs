use xtce_editor::document::{
    collection_entry, draft_name_applies, element_title, parameter_title, Collection, MetaSet,
};
use xtce_editor::model::{ElementKind, Entry, EntryVariant, MetaData, SpaceSystem};

fn entry(variant: EntryVariant, name: &str) -> Entry {
    Entry { variant, name: name.to_owned(), content: String::new() }
}

fn meta() -> MetaData {
    MetaData {
        parameter_type_set: None,
        parameter_set: None,
        container_set: None,
        message_set: None,
        stream_set: None,
        algorithm_set: None,
        argument_type_set: None,
        meta_command_set: None,
        command_container_set: None,
    }
}

fn system() -> SpaceSystem {
    let mut telemetry = meta();
    telemetry.parameter_set = Some(vec![
        entry(EntryVariant::Parameter, "Voltage"),
        entry(EntryVariant::ParameterRef, "Other/Current"),
    ]);
    SpaceSystem {
        name: "Bus".to_owned(),
        header: None,
        alias_set: None,
        ancillary_data_set: None,
        telemetry_meta_data: Some(telemetry),
        command_meta_data: None,
        service_set: None,
        space_system: Vec::new(),
    }
}

#[test]
fn a_reference_title_points_at_its_target() {
    assert_eq!(parameter_title(&entry(EntryVariant::ParameterRef, "Other/Current")), "→ Other/Current");
    assert_eq!(parameter_title(&entry(EntryVariant::Parameter, "Voltage")), "Voltage");
}

#[test]
fn entries_are_found_in_present_collections() {
    let s = system();
    let e = collection_entry(&s, Collection::Telemetry(MetaSet::Parameters), 1).unwrap();
    assert_eq!(e.name, "Other/Current");
    assert!(collection_entry(&s, Collection::Telemetry(MetaSet::Parameters), 2).is_none());
    assert!(collection_entry(&s, Collection::Command(MetaSet::Parameters), 0).is_none());
    assert!(collection_entry(&s, Collection::Services, 0).is_none());
}

#[test]
fn edited_names_title_their_elements() {
    let s = system();
    assert!(draft_name_applies(ElementKind::SpaceSystem, &s));
    assert!(draft_name_applies(ElementKind::TelemetryParameter(0), &s));
    assert!(!draft_name_applies(ElementKind::TelemetryParameter(1), &s));
    assert!(!draft_name_applies(ElementKind::CommandParameter(0), &s));
    assert!(draft_name_applies(ElementKind::ArgumentType(3), &s));
    assert!(!draft_name_applies(ElementKind::TelemetryMetaData, &s));
    assert_eq!(
        element_title(ElementKind::TelemetryParameter(0), &s, "Voltage2".to_owned(), "Parameter".to_owned()),
        "Voltage2"
    );
}

#[test]
fn other_elements_take_their_entry_title_or_label() {
    let s = system();
    assert_eq!(
        element_title(ElementKind::TelemetryParameter(1), &s, "draft".to_owned(), "Parameter".to_owned()),
        "→ Other/Current"
    );
    assert_eq!(
        element_title(ElementKind::TelemetryParameter(7), &s, "draft".to_owned(), "Parameter".to_owned()),
        "Parameter"
    );
    assert_eq!(
        element_title(ElementKind::TelemetryMetaData, &s, "draft".to_owned(), "Telemetry".to_owned()),
        "Telemetry"
    );
}
