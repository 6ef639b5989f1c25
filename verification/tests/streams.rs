use xtce_editor::algorithm::InputAlgorithm;
use xtce_editor::errors::BooleanChoice;
use xtce_editor::stream::{
    AutoInvert, FixedStreamItem, PcmType, ReferenceKind, StreamContent, StreamValues,
    apply_custom_stream, apply_stream, custom_stream_values, default_custom_stream,
    default_fixed_frame_stream, default_sync_strategy, invert_algorithm,
};

fn test_algorithm(name: &str) -> InputAlgorithm {
    InputAlgorithm {
        short_description: None,
        name: name.to_owned(),
        long_description: None,
        alias_set: None,
        ancillary_data_set: None,
        algorithm_text: None,
        external_algorithm_set: None,
        input_set: None,
    }
}

#[test]
fn new_fixed_frame_stream_has_required_empty_references() {
    let stream = default_fixed_frame_stream("FixedFrameStream1".to_owned());

    assert_eq!(stream.name, "FixedFrameStream1");
    assert_eq!(stream.frame_length_in_bits, 0);
    assert!(stream.content.iter().any(|content| matches!(
        content,
        FixedStreamItem::ContainerRef(value) if value.is_empty()
    )));
    assert!(stream
        .content
        .iter()
        .any(|content| matches!(content, FixedStreamItem::SyncStrategy(_))));
}

#[test]
fn stream_content_rebuilds_in_schema_order() {
    let mut content = vec![
        FixedStreamItem::SyncStrategy(default_sync_strategy()),
        FixedStreamItem::LongDescription("description".to_owned()),
        FixedStreamItem::ContainerRef("Packets".to_owned()),
    ];

    let rebuilt = StreamContent::take(&mut content).into_content();

    assert!(matches!(
        rebuilt.first(),
        Some(FixedStreamItem::LongDescription(_))
    ));
    assert!(matches!(rebuilt.last(), Some(FixedStreamItem::SyncStrategy(_))));
    assert_eq!(rebuilt.len(), 3);
    assert!(content.is_empty());
}

#[test]
fn configured_invert_algorithm_is_exposed_to_the_form() {
    let mut stream = default_fixed_frame_stream("Frames".to_owned());
    let sync = stream.content.iter_mut().find_map(|content| match content {
        FixedStreamItem::SyncStrategy(sync) => Some(sync),
        _ => None,
    });
    sync.expect("sync strategy").auto_invert = Some(AutoInvert {
        bad_frames_to_auto_invert: 10,
        invert_algorithm: Some(test_algorithm("invert")),
    });

    assert_eq!(
        invert_algorithm(Some(&stream)).map(|algorithm| algorithm.name.as_str()),
        Some("invert")
    );
}

#[test]
fn later_items_of_a_kind_replace_earlier_ones_when_gathered() {
    let mut content = vec![
        FixedStreamItem::ContainerRef("First".to_owned()),
        FixedStreamItem::ServiceRef("Second".to_owned()),
    ];
    let rebuilt = StreamContent::take(&mut content).into_content();
    assert_eq!(rebuilt.len(), 1);
    assert!(matches!(&rebuilt[0], FixedStreamItem::ServiceRef(s) if s == "Second"));
}

#[test]
fn fixed_stream_form_shows_defaults_and_applies_numbers() {
    let none = StreamValues::from_stream(None);
    assert_eq!(none.sync_aperture, "0");
    assert_eq!(none.verify_to_lock, "4");
    assert_eq!(none.check_to_lock, "1");
    assert_eq!(none.bad_frames_to_auto_invert, "1024");
    assert_eq!(none.frame_length, "");

    let mut stream = default_fixed_frame_stream("Frames".to_owned());
    let mut values = StreamValues::from_stream(Some(&stream));
    assert_eq!(values.reference_kind, ReferenceKind::ContainerRef);
    values.frame_length = " 1024 ".to_owned();
    values.sync_aperture = "wide".to_owned();
    values.bit_rate = "1e6".to_owned();
    values.reference_kind = ReferenceKind::ServiceRef;
    values.reference = "Downlink".to_owned();
    values.auto_invert_present = true;
    values.invert_algorithm_present = true;
    values.pcm = PcmType::BiPhaseM;
    values.inverted = BooleanChoice::True;
    apply_stream(&values, &Vec::new(), &Vec::new(), test_algorithm("flip"), &mut stream);

    assert_eq!(stream.frame_length_in_bits, 1024);
    assert_eq!(stream.sync_aperture_in_bits, 0);
    assert_eq!(stream.bit_rate_in_bps.as_deref(), Some("1e6"));
    assert!(stream.inverted);
    assert!(matches!(stream.pcm_type, PcmType::BiPhaseM));
    assert!(matches!(&stream.content[0], FixedStreamItem::ServiceRef(s) if s == "Downlink"));
    let FixedStreamItem::SyncStrategy(sync) = &stream.content[1] else {
        panic!("expected the sync strategy");
    };
    let auto_invert = sync.auto_invert.as_ref().unwrap();
    assert_eq!(auto_invert.bad_frames_to_auto_invert, 1024);
    assert_eq!(invert_algorithm(Some(&stream)).map(|a| a.name.as_str()), Some("flip"));
}

#[test]
fn new_custom_stream_has_empty_required_stream_references() {
    let stream = default_custom_stream("CustomStream1".to_owned());
    assert!(stream.encoded_stream_ref.is_empty());
    assert!(stream.decoded_stream_ref.is_empty());
    assert_eq!(stream.encoding_algorithm.name, "EncodingAlgorithm");
    assert_eq!(stream.decoding_algorithm.algorithm.name, "DecodingAlgorithm");
    assert!(!stream.decoding_algorithm.thread);
}

#[test]
fn custom_stream_defaults_use_xtce_pcm_and_inversion_defaults() {
    let stream = default_custom_stream("CustomStream1".to_owned());
    assert!(matches!(stream.pcm_type, PcmType::Nrzl));
    assert!(!stream.inverted);
}

#[test]
fn custom_stream_form_applies_algorithm_texts() {
    let none = custom_stream_values(None);
    assert_eq!(none.encoding_name, "EncodingAlgorithm");
    assert_eq!(none.decoding_language, "java");

    let mut stream = default_custom_stream("Custom".to_owned());
    let mut values = custom_stream_values(Some(&stream));
    values.encoding_text = "encode()".to_owned();
    values.encoding_language = String::new();
    values.decoding_thread = BooleanChoice::True;
    values.short_description = "  ".to_owned();
    apply_custom_stream(&values, &Vec::new(), &Vec::new(), &mut stream);
    let text = stream.encoding_algorithm.algorithm_text.as_ref().unwrap();
    assert_eq!(text.language, "java");
    assert_eq!(text.content, "encode()");
    assert!(stream.decoding_algorithm.algorithm.algorithm_text.is_none());
    assert!(stream.decoding_algorithm.thread);
    assert!(stream.short_description.is_none());
}

#[test]
fn a_shown_fixed_stream_applies_back_unchanged() {
    let mut stream = default_fixed_frame_stream("Frames".to_owned());
    stream.frame_length_in_bits = 2048;
    stream.sync_aperture_in_bits = -3;
    stream.bit_rate_in_bps = Some("2.5e3".to_owned());
    stream.short_description = Some("downlink".to_owned());
    stream.content.insert(0, FixedStreamItem::LongDescription("long".to_owned()));
    if let Some(FixedStreamItem::SyncStrategy(sync)) = stream.content.last_mut() {
        sync.sync_pattern.mask = Some("FF".to_owned());
        sync.sync_pattern.mask_length_in_bits = Some(8);
        sync.auto_invert = Some(AutoInvert {
            bad_frames_to_auto_invert: 9,
            invert_algorithm: Some(test_algorithm("flip")),
        });
    }
    let values = StreamValues::from_stream(Some(&stream));
    let mut applied = default_fixed_frame_stream("Other".to_owned());
    applied.frame_length_in_bits = 1;
    applied.content = vec![
        FixedStreamItem::LongDescription("stale".to_owned()),
        FixedStreamItem::ContainerRef("stale".to_owned()),
        FixedStreamItem::SyncStrategy(default_sync_strategy()),
    ];
    apply_stream(&values, &Vec::new(), &Vec::new(), test_algorithm("flip"), &mut applied);
    assert_eq!(applied.name, "Frames");
    assert_eq!(applied.frame_length_in_bits, 2048);
    assert_eq!(applied.sync_aperture_in_bits, -3);
    assert_eq!(applied.bit_rate_in_bps.as_deref(), Some("2.5e3"));
    assert_eq!(applied.short_description.as_deref(), Some("downlink"));
    assert_eq!(applied.content.len(), 3);
    assert!(matches!(&applied.content[0], FixedStreamItem::LongDescription(s) if s == "long"));
    assert!(matches!(&applied.content[1], FixedStreamItem::ContainerRef(s) if s.is_empty()));
    let FixedStreamItem::SyncStrategy(sync) = &applied.content[2] else {
        panic!("expected the sync strategy");
    };
    assert_eq!(sync.sync_pattern.mask.as_deref(), Some("FF"));
    assert_eq!(sync.sync_pattern.mask_length_in_bits, Some(8));
    assert_eq!(sync.auto_invert.as_ref().unwrap().bad_frames_to_auto_invert, 9);
}

#[test]
fn a_shown_custom_stream_applies_back_unchanged() {
    let mut stream = default_custom_stream("Custom".to_owned());
    stream.encoded_stream_ref = "Raw".to_owned();
    stream.decoded_stream_ref = "Frames".to_owned();
    stream.long_description = Some("decoded".to_owned());
    stream.decoding_algorithm.thread = true;
    let values = custom_stream_values(Some(&stream));
    let mut applied = default_custom_stream("Other".to_owned());
    apply_custom_stream(&values, &Vec::new(), &Vec::new(), &mut applied);
    assert_eq!(applied.name, "Custom");
    assert_eq!(applied.encoded_stream_ref, "Raw");
    assert_eq!(applied.decoded_stream_ref, "Frames");
    assert_eq!(applied.long_description.as_deref(), Some("decoded"));
    assert!(applied.short_description.is_none());
    assert!(applied.decoding_algorithm.thread);
    assert_eq!(applied.encoding_algorithm.name, "EncodingAlgorithm");
    assert!(applied.encoding_algorithm.algorithm_text.is_none());
}
