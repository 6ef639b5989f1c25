//! Fixed frame streams: their content in schema order, the texts the
//! fixed frame stream form shows, and the stream the form gives back.
use vstd::prelude::*;
use crate::algorithm::{InputAlgorithm, InputAlgorithmView, opt_text, text_or_empty};
use crate::alias::{Alias, aliases_view};
use crate::ancillary::{AncillaryData, entries_view};
use crate::choice::Choice;
use crate::custom::{alias_set_of, ancillary_set_of};
use crate::errors::BooleanChoice;
use crate::fields::{clean_optional, optional, optional_parse, optional_text, text_of};
use crate::number::{int_text, is_float_chars, is_float_text, parse_i64, parse_i64_spec};
use crate::text::{chars_of, first_some, is_space, is_trimmed, string_of, trim, trim_chars};

verus! {

/// How the bits of a stream are coded on the line.
#[derive(Clone, Copy, Debug, PartialEq, Eq, Structural)]
pub enum PcmType {
    Nrzl,
    Nrzm,
    Nrzs,
    BiPhaseL,
    BiPhaseM,
    BiPhaseS,
}

impl Choice for PcmType {
    open spec fn label_of(c: PcmType) -> Seq<char> {
        match c {
            PcmType::Nrzl => seq!['N', 'R', 'Z', 'L'],
            PcmType::Nrzm => seq!['N', 'R', 'Z', 'M'],
            PcmType::Nrzs => seq!['N', 'R', 'Z', 'S'],
            PcmType::BiPhaseL => seq!['B', 'i', 'P', 'h', 'a', 's', 'e', 'L'],
            PcmType::BiPhaseM => seq!['B', 'i', 'P', 'h', 'a', 's', 'e', 'M'],
            PcmType::BiPhaseS => seq!['B', 'i', 'P', 'h', 'a', 's', 'e', 'S'],
        }
    }

    open spec fn variants() -> Seq<PcmType> {
        seq![PcmType::Nrzl, PcmType::Nrzm, PcmType::Nrzs, PcmType::BiPhaseL, PcmType::BiPhaseM, PcmType::BiPhaseS]
    }

    fn variant_list() -> (r: Vec<PcmType>) {
        let r = vec![PcmType::Nrzl, PcmType::Nrzm, PcmType::Nrzs, PcmType::BiPhaseL, PcmType::BiPhaseM, PcmType::BiPhaseS];
        assert(r@ =~= Self::variants());
        r
    }

    fn label_chars(self) -> (r: Vec<char>) {
        let r = match self {
            PcmType::Nrzl => vec!['N', 'R', 'Z', 'L'],
            PcmType::Nrzm => vec!['N', 'R', 'Z', 'M'],
            PcmType::Nrzs => vec!['N', 'R', 'Z', 'S'],
            PcmType::BiPhaseL => vec!['B', 'i', 'P', 'h', 'a', 's', 'e', 'L'],
            PcmType::BiPhaseM => vec!['B', 'i', 'P', 'h', 'a', 's', 'e', 'M'],
            PcmType::BiPhaseS => vec!['B', 'i', 'P', 'h', 'a', 's', 'e', 'S'],
        };
        assert(r@ =~= Self::label_of(self));
        r
    }

    proof fn lemma_choice() {
        assert forall|c: PcmType| Self::variants().contains(c) by {
            match c {
                PcmType::Nrzl => { assert(Self::variants()[0] == c); },
                PcmType::Nrzm => { assert(Self::variants()[1] == c); },
                PcmType::Nrzs => { assert(Self::variants()[2] == c); },
                PcmType::BiPhaseL => { assert(Self::variants()[3] == c); },
                PcmType::BiPhaseM => { assert(Self::variants()[4] == c); },
                PcmType::BiPhaseS => { assert(Self::variants()[5] == c); },
            }
        }
        assert forall|a: PcmType, b: PcmType| Self::label_of(a) == Self::label_of(b) implies a == b by {
            match (a, b) {
                (PcmType::Nrzl, PcmType::Nrzm) => { assert(Self::label_of(a)[3] != Self::label_of(b)[3]); },
                (PcmType::Nrzl, PcmType::Nrzs) => { assert(Self::label_of(a)[3] != Self::label_of(b)[3]); },
                (PcmType::Nrzl, PcmType::BiPhaseL) => { assert(Self::label_of(a).len() != Self::label_of(b).len()); },
                (PcmType::Nrzl, PcmType::BiPhaseM) => { assert(Self::label_of(a).len() != Self::label_of(b).len()); },
                (PcmType::Nrzl, PcmType::BiPhaseS) => { assert(Self::label_of(a).len() != Self::label_of(b).len()); },
                (PcmType::Nrzm, PcmType::Nrzl) => { assert(Self::label_of(a)[3] != Self::label_of(b)[3]); },
                (PcmType::Nrzm, PcmType::Nrzs) => { assert(Self::label_of(a)[3] != Self::label_of(b)[3]); },
                (PcmType::Nrzm, PcmType::BiPhaseL) => { assert(Self::label_of(a).len() != Self::label_of(b).len()); },
                (PcmType::Nrzm, PcmType::BiPhaseM) => { assert(Self::label_of(a).len() != Self::label_of(b).len()); },
                (PcmType::Nrzm, PcmType::BiPhaseS) => { assert(Self::label_of(a).len() != Self::label_of(b).len()); },
                (PcmType::Nrzs, PcmType::Nrzl) => { assert(Self::label_of(a)[3] != Self::label_of(b)[3]); },
                (PcmType::Nrzs, PcmType::Nrzm) => { assert(Self::label_of(a)[3] != Self::label_of(b)[3]); },
                (PcmType::Nrzs, PcmType::BiPhaseL) => { assert(Self::label_of(a).len() != Self::label_of(b).len()); },
                (PcmType::Nrzs, PcmType::BiPhaseM) => { assert(Self::label_of(a).len() != Self::label_of(b).len()); },
                (PcmType::Nrzs, PcmType::BiPhaseS) => { assert(Self::label_of(a).len() != Self::label_of(b).len()); },
                (PcmType::BiPhaseL, PcmType::Nrzl) => { assert(Self::label_of(a).len() != Self::label_of(b).len()); },
                (PcmType::BiPhaseL, PcmType::Nrzm) => { assert(Self::label_of(a).len() != Self::label_of(b).len()); },
                (PcmType::BiPhaseL, PcmType::Nrzs) => { assert(Self::label_of(a).len() != Self::label_of(b).len()); },
                (PcmType::BiPhaseL, PcmType::BiPhaseM) => { assert(Self::label_of(a)[7] != Self::label_of(b)[7]); },
                (PcmType::BiPhaseL, PcmType::BiPhaseS) => { assert(Self::label_of(a)[7] != Self::label_of(b)[7]); },
                (PcmType::BiPhaseM, PcmType::Nrzl) => { assert(Self::label_of(a).len() != Self::label_of(b).len()); },
                (PcmType::BiPhaseM, PcmType::Nrzm) => { assert(Self::label_of(a).len() != Self::label_of(b).len()); },
                (PcmType::BiPhaseM, PcmType::Nrzs) => { assert(Self::label_of(a).len() != Self::label_of(b).len()); },
                (PcmType::BiPhaseM, PcmType::BiPhaseL) => { assert(Self::label_of(a)[7] != Self::label_of(b)[7]); },
                (PcmType::BiPhaseM, PcmType::BiPhaseS) => { assert(Self::label_of(a)[7] != Self::label_of(b)[7]); },
                (PcmType::BiPhaseS, PcmType::Nrzl) => { assert(Self::label_of(a).len() != Self::label_of(b).len()); },
                (PcmType::BiPhaseS, PcmType::Nrzm) => { assert(Self::label_of(a).len() != Self::label_of(b).len()); },
                (PcmType::BiPhaseS, PcmType::Nrzs) => { assert(Self::label_of(a).len() != Self::label_of(b).len()); },
                (PcmType::BiPhaseS, PcmType::BiPhaseL) => { assert(Self::label_of(a)[7] != Self::label_of(b)[7]); },
                (PcmType::BiPhaseS, PcmType::BiPhaseM) => { assert(Self::label_of(a)[7] != Self::label_of(b)[7]); },
                _ => {},
            }
        }
        assert forall|c: PcmType| is_trimmed(#[trigger] Self::label_of(c)) && Self::label_of(c).len() > 0 by {
            let l = Self::label_of(c);
            assert(!is_space(l[0]) && !is_space(l[l.len() - 1]));
        }
    }
}

/// What a fixed frame stream refers to: a container or a service.
#[derive(Clone, Copy, Debug, PartialEq, Eq, Structural)]
pub enum ReferenceKind {
    ContainerRef,
    ServiceRef,
}

impl Choice for ReferenceKind {
    open spec fn label_of(c: ReferenceKind) -> Seq<char> {
        match c {
            ReferenceKind::ContainerRef => seq!['C', 'o', 'n', 't', 'a', 'i', 'n', 'e', 'r', 'R', 'e', 'f'],
            ReferenceKind::ServiceRef => seq!['S', 'e', 'r', 'v', 'i', 'c', 'e', 'R', 'e', 'f'],
        }
    }

    open spec fn variants() -> Seq<ReferenceKind> {
        seq![ReferenceKind::ContainerRef, ReferenceKind::ServiceRef]
    }

    fn variant_list() -> (r: Vec<ReferenceKind>) {
        let r = vec![ReferenceKind::ContainerRef, ReferenceKind::ServiceRef];
        assert(r@ =~= Self::variants());
        r
    }

    fn label_chars(self) -> (r: Vec<char>) {
        let r = match self {
            ReferenceKind::ContainerRef => vec!['C', 'o', 'n', 't', 'a', 'i', 'n', 'e', 'r', 'R', 'e', 'f'],
            ReferenceKind::ServiceRef => vec!['S', 'e', 'r', 'v', 'i', 'c', 'e', 'R', 'e', 'f'],
        };
        assert(r@ =~= Self::label_of(self));
        r
    }

    proof fn lemma_choice() {
        assert forall|c: ReferenceKind| Self::variants().contains(c) by {
            match c {
                ReferenceKind::ContainerRef => { assert(Self::variants()[0] == c); },
                ReferenceKind::ServiceRef => { assert(Self::variants()[1] == c); },
            }
        }
        assert forall|a: ReferenceKind, b: ReferenceKind| Self::label_of(a) == Self::label_of(b) implies a == b by {
            match (a, b) {
                (ReferenceKind::ContainerRef, ReferenceKind::ServiceRef) => { assert(Self::label_of(a).len() != Self::label_of(b).len()); },
                (ReferenceKind::ServiceRef, ReferenceKind::ContainerRef) => { assert(Self::label_of(a).len() != Self::label_of(b).len()); },
                _ => {},
            }
        }
        assert forall|c: ReferenceKind| is_trimmed(#[trigger] Self::label_of(c)) && Self::label_of(c).len() > 0 by {
            let l = Self::label_of(c);
            assert(!is_space(l[0]) && !is_space(l[l.len() - 1]));
        }
    }
}

// ---------------------------------------------------------------------
// Streams
// ---------------------------------------------------------------------

/// The sync pattern of a fixed frame stream.
#[derive(Debug)]
pub struct SyncPattern {
    pub pattern: String,
    pub bit_location_from_start_of_container: i64,
    pub mask: Option<String>,
    pub mask_length_in_bits: Option<i64>,
    pub pattern_length_in_bits: i64,
}

/// The value of a sync pattern.
pub struct SyncPatternView {
    pub pattern: Seq<char>,
    pub bit_location_from_start_of_container: i64,
    pub mask: Option<Seq<char>>,
    pub mask_length_in_bits: Option<i64>,
    pub pattern_length_in_bits: i64,
}

impl View for SyncPattern {
    type V = SyncPatternView;

    open spec fn view(&self) -> SyncPatternView {
        SyncPatternView {
            pattern: self.pattern@,
            bit_location_from_start_of_container: self.bit_location_from_start_of_container,
            mask: opt_text(self.mask),
            mask_length_in_bits: self.mask_length_in_bits,
            pattern_length_in_bits: self.pattern_length_in_bits,
        }
    }
}

/// When and how a stream is inverted automatically.
#[derive(Debug)]
pub struct AutoInvert {
    pub bad_frames_to_auto_invert: i64,
    pub invert_algorithm: Option<InputAlgorithm>,
}

/// The value of an automatic inversion.
pub struct AutoInvertView {
    pub bad_frames_to_auto_invert: i64,
    pub invert_algorithm: Option<InputAlgorithmView>,
}

impl View for AutoInvert {
    type V = AutoInvertView;

    open spec fn view(&self) -> AutoInvertView {
        AutoInvertView {
            bad_frames_to_auto_invert: self.bad_frames_to_auto_invert,
            invert_algorithm: match self.invert_algorithm {
                Some(a) => Some(a@),
                None => None,
            },
        }
    }
}

/// How a receiver locks onto the frames of a stream.
#[derive(Debug)]
pub struct SyncStrategy {
    pub verify_to_lock_good_frames: i64,
    pub check_to_lock_good_frames: i64,
    pub max_bit_errors_in_sync_pattern: i64,
    pub auto_invert: Option<AutoInvert>,
    pub sync_pattern: SyncPattern,
}

/// The value of a sync strategy.
pub struct SyncStrategyView {
    pub verify_to_lock_good_frames: i64,
    pub check_to_lock_good_frames: i64,
    pub max_bit_errors_in_sync_pattern: i64,
    pub auto_invert: Option<AutoInvertView>,
    pub sync_pattern: SyncPatternView,
}

impl View for SyncStrategy {
    type V = SyncStrategyView;

    open spec fn view(&self) -> SyncStrategyView {
        SyncStrategyView {
            verify_to_lock_good_frames: self.verify_to_lock_good_frames,
            check_to_lock_good_frames: self.check_to_lock_good_frames,
            max_bit_errors_in_sync_pattern: self.max_bit_errors_in_sync_pattern,
            auto_invert: match self.auto_invert {
                Some(a) => Some(a@),
                None => None,
            },
            sync_pattern: self.sync_pattern@,
        }
    }
}

/// The schema's sync strategy: 4 good frames to verify, 1 to check, no
/// bit error allowed, an empty pattern at the start of the container.
pub open spec fn default_sync_strategy_view() -> SyncStrategyView {
    SyncStrategyView {
        verify_to_lock_good_frames: 4,
        check_to_lock_good_frames: 1,
        max_bit_errors_in_sync_pattern: 0,
        auto_invert: None,
        sync_pattern: SyncPatternView {
            pattern: Seq::empty(),
            bit_location_from_start_of_container: 0,
            mask: None,
            mask_length_in_bits: None,
            pattern_length_in_bits: 0,
        },
    }
}

/// The schema's sync strategy (see [`default_sync_strategy_view`]).
pub fn default_sync_strategy() -> (r: SyncStrategy)
    ensures
        r@ == default_sync_strategy_view(),
{
    SyncStrategy {
        verify_to_lock_good_frames: 4,
        check_to_lock_good_frames: 1,
        max_bit_errors_in_sync_pattern: 0,
        auto_invert: None,
        sync_pattern: SyncPattern {
            pattern: String::new(),
            bit_location_from_start_of_container: 0,
            mask: None,
            mask_length_in_bits: None,
            pattern_length_in_bits: 0,
        },
    }
}

/// One item of the content of a fixed frame stream.
#[derive(Debug)]
pub enum FixedStreamItem {
    LongDescription(String),
    AliasSet(Vec<Alias<String>>),
    AncillaryDataSet(Vec<AncillaryData<String>>),
    ContainerRef(String),
    ServiceRef(String),
    StreamRef(String),
    SyncStrategy(SyncStrategy),
}

/// The value of a [`FixedStreamItem`].
pub enum FixedStreamItemView {
    LongDescription(Seq<char>),
    AliasSet(Seq<Alias<Seq<char>>>),
    AncillaryDataSet(Seq<AncillaryData<Seq<char>>>),
    ContainerRef(Seq<char>),
    ServiceRef(Seq<char>),
    StreamRef(Seq<char>),
    SyncStrategy(SyncStrategyView),
}

impl View for FixedStreamItem {
    type V = FixedStreamItemView;

    open spec fn view(&self) -> FixedStreamItemView {
        match self {
            FixedStreamItem::LongDescription(s) => FixedStreamItemView::LongDescription(s@),
            FixedStreamItem::AliasSet(v) => FixedStreamItemView::AliasSet(aliases_view(v@)),
            FixedStreamItem::AncillaryDataSet(v) => FixedStreamItemView::AncillaryDataSet(
                entries_view(v@),
            ),
            FixedStreamItem::ContainerRef(s) => FixedStreamItemView::ContainerRef(s@),
            FixedStreamItem::ServiceRef(s) => FixedStreamItemView::ServiceRef(s@),
            FixedStreamItem::StreamRef(s) => FixedStreamItemView::StreamRef(s@),
            FixedStreamItem::SyncStrategy(s) => FixedStreamItemView::SyncStrategy(s@),
        }
    }
}

/// The values of a stream's content.
pub open spec fn items_view(v: Seq<FixedStreamItem>) -> Seq<FixedStreamItemView> {
    v.map_values(|x: FixedStreamItem| x@)
}

/// A fixed frame stream. Its bit rate is a decimal number kept as the text
/// that reads as it.
#[derive(Debug)]
pub struct FixedFrameStream {
    pub short_description: Option<String>,
    pub name: String,
    pub bit_rate_in_bps: Option<String>,
    pub pcm_type: PcmType,
    pub inverted: bool,
    pub sync_aperture_in_bits: i64,
    pub frame_length_in_bits: i64,
    pub content: Vec<FixedStreamItem>,
}

/// The value of a fixed frame stream.
pub struct FixedStreamView {
    pub short_description: Option<Seq<char>>,
    pub name: Seq<char>,
    pub bit_rate_in_bps: Option<Seq<char>>,
    pub pcm_type: PcmType,
    pub inverted: bool,
    pub sync_aperture_in_bits: i64,
    pub frame_length_in_bits: i64,
    pub content: Seq<FixedStreamItemView>,
}

impl View for FixedFrameStream {
    type V = FixedStreamView;

    open spec fn view(&self) -> FixedStreamView {
        FixedStreamView {
            short_description: opt_text(self.short_description),
            name: self.name@,
            bit_rate_in_bps: opt_text(self.bit_rate_in_bps),
            pcm_type: self.pcm_type,
            inverted: self.inverted,
            sync_aperture_in_bits: self.sync_aperture_in_bits,
            frame_length_in_bits: self.frame_length_in_bits,
            content: items_view(self.content@),
        }
    }
}

/// A new fixed frame stream: NRZL, not inverted, no sync aperture, frame
/// length 0, an empty container reference and the schema's sync strategy.
pub open spec fn new_fixed_frame_stream(name: Seq<char>) -> FixedStreamView {
    FixedStreamView {
        short_description: None,
        name,
        bit_rate_in_bps: None,
        pcm_type: PcmType::Nrzl,
        inverted: false,
        sync_aperture_in_bits: 0,
        frame_length_in_bits: 0,
        content: seq![
            FixedStreamItemView::ContainerRef(Seq::empty()),
            FixedStreamItemView::SyncStrategy(default_sync_strategy_view()),
        ],
    }
}

/// A new fixed frame stream (see [`new_fixed_frame_stream`]).
pub fn default_fixed_frame_stream(name: String) -> (r: FixedFrameStream)
    ensures
        r@ == new_fixed_frame_stream(name@),
{
    let content = vec![
        FixedStreamItem::ContainerRef(String::new()),
        FixedStreamItem::SyncStrategy(default_sync_strategy()),
    ];
    let r = FixedFrameStream {
        short_description: None,
        name,
        bit_rate_in_bps: None,
        pcm_type: PcmType::Nrzl,
        inverted: false,
        sync_aperture_in_bits: 0,
        frame_length_in_bits: 0,
        content,
    };
    assert(items_view(r.content@) =~= new_fixed_frame_stream(name@).content);
    r
}

// ---------------------------------------------------------------------
// The content, gathered by kind
// ---------------------------------------------------------------------

/// What a stream refers to.
#[derive(Debug)]
pub enum StreamReference {
    Container(String),
    Service(String),
}

/// The value of a [`StreamReference`].
pub enum StreamReferenceView {
    Container(Seq<char>),
    Service(Seq<char>),
}

impl View for StreamReference {
    type V = StreamReferenceView;

    open spec fn view(&self) -> StreamReferenceView {
        match self {
            StreamReference::Container(s) => StreamReferenceView::Container(s@),
            StreamReference::Service(s) => StreamReferenceView::Service(s@),
        }
    }
}

/// The content of a stream, one field per kind of item.
#[derive(Debug)]
pub struct StreamContent {
    pub long_description: Option<String>,
    pub alias_set: Option<Vec<Alias<String>>>,
    pub ancillary_data_set: Option<Vec<AncillaryData<String>>>,
    pub reference: Option<StreamReference>,
    pub stream_ref: Option<String>,
    pub sync_strategy: Option<SyncStrategy>,
}

/// The value of a [`StreamContent`].
pub struct StreamContentView {
    pub long_description: Option<Seq<char>>,
    pub alias_set: Option<Seq<Alias<Seq<char>>>>,
    pub ancillary_data_set: Option<Seq<AncillaryData<Seq<char>>>>,
    pub reference: Option<StreamReferenceView>,
    pub stream_ref: Option<Seq<char>>,
    pub sync_strategy: Option<SyncStrategyView>,
}

impl View for StreamContent {
    type V = StreamContentView;

    open spec fn view(&self) -> StreamContentView {
        StreamContentView {
            long_description: opt_text(self.long_description),
            alias_set: match self.alias_set {
                Some(v) => Some(aliases_view(v@)),
                None => None,
            },
            ancillary_data_set: match self.ancillary_data_set {
                Some(v) => Some(entries_view(v@)),
                None => None,
            },
            reference: match self.reference {
                Some(r) => Some(r@),
                None => None,
            },
            stream_ref: opt_text(self.stream_ref),
            sync_strategy: match self.sync_strategy {
                Some(s) => Some(s@),
                None => None,
            },
        }
    }
}

/// Content with no item.
pub open spec fn empty_content() -> StreamContentView {
    StreamContentView {
        long_description: None,
        alias_set: None,
        ancillary_data_set: None,
        reference: None,
        stream_ref: None,
        sync_strategy: None,
    }
}

/// The content with one more item: the item takes the place of the one of
/// its kind (a container and a service reference are one kind).
pub open spec fn absorb(c: StreamContentView, x: FixedStreamItemView) -> StreamContentView {
    match x {
        FixedStreamItemView::LongDescription(s) => StreamContentView { long_description: Some(s), ..c },
        FixedStreamItemView::AliasSet(v) => StreamContentView { alias_set: Some(v), ..c },
        FixedStreamItemView::AncillaryDataSet(v) => StreamContentView { ancillary_data_set: Some(v), ..c },
        FixedStreamItemView::ContainerRef(s) => StreamContentView {
            reference: Some(StreamReferenceView::Container(s)),
            ..c
        },
        FixedStreamItemView::ServiceRef(s) => StreamContentView {
            reference: Some(StreamReferenceView::Service(s)),
            ..c
        },
        FixedStreamItemView::StreamRef(s) => StreamContentView { stream_ref: Some(s), ..c },
        FixedStreamItemView::SyncStrategy(s) => StreamContentView { sync_strategy: Some(s), ..c },
    }
}

/// The content of a stream gathered by kind; of two items of one kind the
/// later one counts.
pub open spec fn gathered(items: Seq<FixedStreamItemView>) -> StreamContentView
    decreases items.len(),
{
    if items.len() == 0 {
        empty_content()
    } else {
        absorb(gathered(items.drop_last()), items.last())
    }
}

/// A sequence with one more item when there is one.
pub open spec fn push_opt<A>(s: Seq<A>, o: Option<A>) -> Seq<A> {
    match o {
        Some(x) => s.push(x),
        None => s,
    }
}

/// The items written for gathered content, in the schema's order: long
/// description, alias set, ancillary data set, reference, stream
/// reference, sync strategy.
pub open spec fn content_items(c: StreamContentView) -> Seq<FixedStreamItemView> {
    let s1 = push_opt(Seq::empty(), match c.long_description {
        Some(s) => Some(FixedStreamItemView::LongDescription(s)),
        None => None,
    });
    let s2 = push_opt(s1, match c.alias_set {
        Some(v) => Some(FixedStreamItemView::AliasSet(v)),
        None => None,
    });
    let s3 = push_opt(s2, match c.ancillary_data_set {
        Some(v) => Some(FixedStreamItemView::AncillaryDataSet(v)),
        None => None,
    });
    let s4 = push_opt(s3, match c.reference {
        Some(StreamReferenceView::Container(s)) => Some(FixedStreamItemView::ContainerRef(s)),
        Some(StreamReferenceView::Service(s)) => Some(FixedStreamItemView::ServiceRef(s)),
        None => None,
    });
    let s5 = push_opt(s4, match c.stream_ref {
        Some(s) => Some(FixedStreamItemView::StreamRef(s)),
        None => None,
    });
    push_opt(s5, match c.sync_strategy {
        Some(s) => Some(FixedStreamItemView::SyncStrategy(s)),
        None => None,
    })
}

impl StreamContent {
    /// Empties a stream's content and gives it back gathered by kind (see
    /// [`gathered`]).
    pub fn take(content: &mut Vec<FixedStreamItem>) -> (r: StreamContent)
        ensures
            r@ == gathered(items_view(old(content)@)),
            final(content)@.len() == 0,
    {
        let mut items: Vec<FixedStreamItem> = Vec::new();
        std::mem::swap(&mut items, content);
        let ghost all = items_view(items@);
        let ghost n = items@.len();
        let mut r = StreamContent {
            long_description: None,
            alias_set: None,
            ancillary_data_set: None,
            reference: None,
            stream_ref: None,
            sync_strategy: None,
        };
        assert(all.take(0) =~= Seq::<FixedStreamItemView>::empty());
        while items.len() > 0
            invariant
                all == items_view(old(content)@),
                n == all.len(),
                items@.len() <= n,
                items_view(items@) == all.skip(n - items@.len()),
                r@ == gathered(all.take(n - items@.len())),
                content@.len() == 0,
            decreases items.len(),
        {
            let ghost done: int = n - items@.len();
            let ghost before = items@;
            let item = items.remove(0);
            proof {
                assert(items_view(before)[0] == before[0]@);
                assert(all.skip(done)[0] == all[done]);
                assert(item@ == all[done]);
                assert forall|j: int| 0 <= j < items@.len() implies #[trigger] items_view(items@)[j]
                    == all.skip(done + 1)[j] by {
                    assert(items@[j] == before[j + 1]);
                    assert(items_view(before)[j + 1] == before[j + 1]@);
                    assert(all.skip(done)[j + 1] == all[done + 1 + j]);
                }
                assert(items_view(items@) =~= all.skip(done + 1));
                assert(all.take(done + 1).drop_last() =~= all.take(done));
                assert(all.take(done + 1).last() == all[done]);
            }
            match item {
                FixedStreamItem::LongDescription(s) => {
                    r.long_description = Some(s);
                },
                FixedStreamItem::AliasSet(v) => {
                    r.alias_set = Some(v);
                },
                FixedStreamItem::AncillaryDataSet(v) => {
                    r.ancillary_data_set = Some(v);
                },
                FixedStreamItem::ContainerRef(s) => {
                    r.reference = Some(StreamReference::Container(s));
                },
                FixedStreamItem::ServiceRef(s) => {
                    r.reference = Some(StreamReference::Service(s));
                },
                FixedStreamItem::StreamRef(s) => {
                    r.stream_ref = Some(s);
                },
                FixedStreamItem::SyncStrategy(s) => {
                    r.sync_strategy = Some(s);
                },
            }
        }
        assert(all.take(n as int) =~= all);
        r
    }

    /// The items written for gathered content (see [`content_items`]).
    pub fn into_content(self) -> (r: Vec<FixedStreamItem>)
        ensures
            items_view(r@) == content_items(self@),
    {
        let c = self;
        let ghost cv = c@;
        let mut out: Vec<FixedStreamItem> = Vec::new();
        let ghost s0 = items_view(out@);
        assert(s0 =~= Seq::<FixedStreamItemView>::empty());
        if let Some(x) = c.long_description {
            out.push(FixedStreamItem::LongDescription(x));
        }
        let ghost s1 = items_view(out@);
        assert(s1 =~= push_opt(Seq::empty(), match cv.long_description {
            Some(s) => Some(FixedStreamItemView::LongDescription(s)),
            None => None,
        }));
        if let Some(x) = c.alias_set {
            out.push(FixedStreamItem::AliasSet(x));
        }
        let ghost s2 = items_view(out@);
        assert(s2 =~= push_opt(s1, match cv.alias_set {
            Some(v) => Some(FixedStreamItemView::AliasSet(v)),
            None => None,
        }));
        if let Some(x) = c.ancillary_data_set {
            out.push(FixedStreamItem::AncillaryDataSet(x));
        }
        let ghost s3 = items_view(out@);
        assert(s3 =~= push_opt(s2, match cv.ancillary_data_set {
            Some(v) => Some(FixedStreamItemView::AncillaryDataSet(v)),
            None => None,
        }));
        match c.reference {
            Some(StreamReference::Container(x)) => out.push(FixedStreamItem::ContainerRef(x)),
            Some(StreamReference::Service(x)) => out.push(FixedStreamItem::ServiceRef(x)),
            None => {},
        }
        let ghost s4 = items_view(out@);
        assert(s4 =~= push_opt(s3, match cv.reference {
            Some(StreamReferenceView::Container(s)) => Some(FixedStreamItemView::ContainerRef(s)),
            Some(StreamReferenceView::Service(s)) => Some(FixedStreamItemView::ServiceRef(s)),
            None => None,
        }));
        if let Some(x) = c.stream_ref {
            out.push(FixedStreamItem::StreamRef(x));
        }
        let ghost s5 = items_view(out@);
        assert(s5 =~= push_opt(s4, match cv.stream_ref {
            Some(s) => Some(FixedStreamItemView::StreamRef(s)),
            None => None,
        }));
        if let Some(x) = c.sync_strategy {
            out.push(FixedStreamItem::SyncStrategy(x));
        }
        assert(items_view(out@) =~= content_items(cv));
        out
    }
}

/// Gathering content after one more item, pushed when there is one.
proof fn lemma_gathered_push_opt(s: Seq<FixedStreamItemView>, o: Option<FixedStreamItemView>)
    ensures
        gathered(push_opt(s, o)) == match o {
            Some(x) => absorb(gathered(s), x),
            None => gathered(s),
        },
{
    match o {
        Some(x) => {
            assert(s.push(x).drop_last() =~= s);
        },
        None => {},
    }
}

/// Gathering the items written for content gives the content back: the
/// content of a stream rebuilt in the schema's order holds the same items.
pub proof fn lemma_content_round_trip(c: StreamContentView)
    ensures
        gathered(content_items(c)) == c,
{
    let s1 = push_opt(Seq::empty(), match c.long_description {
        Some(s) => Some(FixedStreamItemView::LongDescription(s)),
        None => None,
    });
    let s2 = push_opt(s1, match c.alias_set {
        Some(v) => Some(FixedStreamItemView::AliasSet(v)),
        None => None,
    });
    let s3 = push_opt(s2, match c.ancillary_data_set {
        Some(v) => Some(FixedStreamItemView::AncillaryDataSet(v)),
        None => None,
    });
    let s4 = push_opt(s3, match c.reference {
        Some(StreamReferenceView::Container(s)) => Some(FixedStreamItemView::ContainerRef(s)),
        Some(StreamReferenceView::Service(s)) => Some(FixedStreamItemView::ServiceRef(s)),
        None => None,
    });
    let s5 = push_opt(s4, match c.stream_ref {
        Some(s) => Some(FixedStreamItemView::StreamRef(s)),
        None => None,
    });
    lemma_gathered_push_opt(Seq::empty(), match c.long_description {
        Some(s) => Some(FixedStreamItemView::LongDescription(s)),
        None => None,
    });
    lemma_gathered_push_opt(s1, match c.alias_set {
        Some(v) => Some(FixedStreamItemView::AliasSet(v)),
        None => None,
    });
    lemma_gathered_push_opt(s2, match c.ancillary_data_set {
        Some(v) => Some(FixedStreamItemView::AncillaryDataSet(v)),
        None => None,
    });
    lemma_gathered_push_opt(s3, match c.reference {
        Some(StreamReferenceView::Container(s)) => Some(FixedStreamItemView::ContainerRef(s)),
        Some(StreamReferenceView::Service(s)) => Some(FixedStreamItemView::ServiceRef(s)),
        None => None,
    });
    lemma_gathered_push_opt(s4, match c.stream_ref {
        Some(s) => Some(FixedStreamItemView::StreamRef(s)),
        None => None,
    });
    lemma_gathered_push_opt(s5, match c.sync_strategy {
        Some(s) => Some(FixedStreamItemView::SyncStrategy(s)),
        None => None,
    });
}


// ---------------------------------------------------------------------
// The texts of the fixed frame stream form
// ---------------------------------------------------------------------

/// The texts and choices of the fixed frame stream form.
#[derive(Debug)]
pub struct StreamValues {
    pub name: String,
    pub bit_rate: String,
    pub pcm: PcmType,
    pub inverted: BooleanChoice,
    pub sync_aperture: String,
    pub frame_length: String,
    pub short_description: String,
    pub long_description: String,
    pub reference_kind: ReferenceKind,
    pub reference: String,
    pub stream_ref: String,
    pub verify_to_lock: String,
    pub check_to_lock: String,
    pub max_bit_errors: String,
    pub sync_pattern: String,
    pub pattern_location: String,
    pub pattern_mask: String,
    pub mask_length: String,
    pub pattern_length: String,
    pub auto_invert_present: bool,
    pub bad_frames_to_auto_invert: String,
    pub invert_algorithm_present: bool,
}

/// The value of [`StreamValues`].
pub struct StreamValuesView {
    pub name: Seq<char>,
    pub bit_rate: Seq<char>,
    pub pcm: PcmType,
    pub inverted: BooleanChoice,
    pub sync_aperture: Seq<char>,
    pub frame_length: Seq<char>,
    pub short_description: Seq<char>,
    pub long_description: Seq<char>,
    pub reference_kind: ReferenceKind,
    pub reference: Seq<char>,
    pub stream_ref: Seq<char>,
    pub verify_to_lock: Seq<char>,
    pub check_to_lock: Seq<char>,
    pub max_bit_errors: Seq<char>,
    pub sync_pattern: Seq<char>,
    pub pattern_location: Seq<char>,
    pub pattern_mask: Seq<char>,
    pub mask_length: Seq<char>,
    pub pattern_length: Seq<char>,
    pub auto_invert_present: bool,
    pub bad_frames_to_auto_invert: Seq<char>,
    pub invert_algorithm_present: bool,
}

impl View for StreamValues {
    type V = StreamValuesView;

    open spec fn view(&self) -> StreamValuesView {
        StreamValuesView {
            name: self.name@,
            bit_rate: self.bit_rate@,
            pcm: self.pcm,
            inverted: self.inverted,
            sync_aperture: self.sync_aperture@,
            frame_length: self.frame_length@,
            short_description: self.short_description@,
            long_description: self.long_description@,
            reference_kind: self.reference_kind,
            reference: self.reference@,
            stream_ref: self.stream_ref@,
            verify_to_lock: self.verify_to_lock@,
            check_to_lock: self.check_to_lock@,
            max_bit_errors: self.max_bit_errors@,
            sync_pattern: self.sync_pattern@,
            pattern_location: self.pattern_location@,
            pattern_mask: self.pattern_mask@,
            mask_length: self.mask_length@,
            pattern_length: self.pattern_length@,
            auto_invert_present: self.auto_invert_present,
            bad_frames_to_auto_invert: self.bad_frames_to_auto_invert@,
            invert_algorithm_present: self.invert_algorithm_present,
        }
    }
}

/// The long description of an item, if it is one.
pub open spec fn long_description_of(x: FixedStreamItemView) -> Option<Seq<char>> {
    match x {
        FixedStreamItemView::LongDescription(s) => Some(s),
        _ => None,
    }
}

/// The reference of an item, if it is one.
pub open spec fn reference_of(x: FixedStreamItemView) -> Option<StreamReferenceView> {
    match x {
        FixedStreamItemView::ContainerRef(s) => Some(StreamReferenceView::Container(s)),
        FixedStreamItemView::ServiceRef(s) => Some(StreamReferenceView::Service(s)),
        _ => None,
    }
}

/// The stream reference of an item, if it is one.
pub open spec fn stream_ref_of(x: FixedStreamItemView) -> Option<Seq<char>> {
    match x {
        FixedStreamItemView::StreamRef(s) => Some(s),
        _ => None,
    }
}

/// The sync strategy of an item, if it is one.
pub open spec fn sync_of(x: FixedStreamItemView) -> Option<SyncStrategyView> {
    match x {
        FixedStreamItemView::SyncStrategy(s) => Some(s),
        _ => None,
    }
}

/// The first sync strategy of a stream's content.
pub open spec fn first_sync(c: Seq<FixedStreamItemView>) -> Option<SyncStrategyView> {
    first_some(c, |x: FixedStreamItemView| sync_of(x))
}

/// A number's text, or a default text.
pub open spec fn number_or(o: Option<i64>, default: Seq<char>) -> Seq<char> {
    match o {
        Some(n) => int_text(n as int),
        None => default,
    }
}

/// The texts the form shows for a fixed frame stream, or for none. Where
/// there is no sync strategy the form shows the schema's defaults (4 good
/// frames to verify, 1 to check, no bit error, the pattern at bit 0), and
/// 1024 bad frames before an automatic inversion.
pub open spec fn stream_values_of(s: Option<FixedStreamView>) -> StreamValuesView {
    let content = match s {
        Some(s) => s.content,
        None => Seq::empty(),
    };
    let reference = first_some(content, |x: FixedStreamItemView| reference_of(x));
    let sync = first_sync(content);
    let auto_invert = match sync {
        Some(y) => y.auto_invert,
        None => None,
    };
    StreamValuesView {
        name: match s {
            Some(s) => s.name,
            None => Seq::empty(),
        },
        bit_rate: match s {
            Some(s) => text_or_empty(s.bit_rate_in_bps),
            None => Seq::empty(),
        },
        pcm: match s {
            Some(s) => s.pcm_type,
            None => PcmType::Nrzl,
        },
        inverted: match s {
            Some(s) => if s.inverted {
                BooleanChoice::True
            } else {
                BooleanChoice::False
            },
            None => BooleanChoice::False,
        },
        sync_aperture: match s {
            Some(s) => int_text(s.sync_aperture_in_bits as int),
            None => int_text(0),
        },
        frame_length: match s {
            Some(s) => int_text(s.frame_length_in_bits as int),
            None => Seq::empty(),
        },
        short_description: match s {
            Some(s) => text_or_empty(s.short_description),
            None => Seq::empty(),
        },
        long_description: text_or_empty(
            first_some(content, |x: FixedStreamItemView| long_description_of(x)),
        ),
        reference_kind: match reference {
            Some(StreamReferenceView::Service(_)) => ReferenceKind::ServiceRef,
            _ => ReferenceKind::ContainerRef,
        },
        reference: match reference {
            Some(StreamReferenceView::Container(r)) => r,
            Some(StreamReferenceView::Service(r)) => r,
            None => Seq::empty(),
        },
        stream_ref: text_or_empty(first_some(content, |x: FixedStreamItemView| stream_ref_of(x))),
        verify_to_lock: match sync {
            Some(y) => int_text(y.verify_to_lock_good_frames as int),
            None => int_text(4),
        },
        check_to_lock: match sync {
            Some(y) => int_text(y.check_to_lock_good_frames as int),
            None => int_text(1),
        },
        max_bit_errors: match sync {
            Some(y) => int_text(y.max_bit_errors_in_sync_pattern as int),
            None => int_text(0),
        },
        sync_pattern: match sync {
            Some(y) => y.sync_pattern.pattern,
            None => Seq::empty(),
        },
        pattern_location: match sync {
            Some(y) => int_text(y.sync_pattern.bit_location_from_start_of_container as int),
            None => int_text(0),
        },
        pattern_mask: match sync {
            Some(y) => text_or_empty(y.sync_pattern.mask),
            None => Seq::empty(),
        },
        mask_length: match sync {
            Some(y) => number_or(y.sync_pattern.mask_length_in_bits, Seq::empty()),
            None => Seq::empty(),
        },
        pattern_length: match sync {
            Some(y) => int_text(y.sync_pattern.pattern_length_in_bits as int),
            None => Seq::empty(),
        },
        auto_invert_present: auto_invert is Some,
        bad_frames_to_auto_invert: match auto_invert {
            Some(a) => int_text(a.bad_frames_to_auto_invert as int),
            None => int_text(1024),
        },
        invert_algorithm_present: match auto_invert {
            Some(a) => a.invert_algorithm is Some,
            None => false,
        },
    }
}

fn number(n: i64) -> (r: String)
    ensures
        r@ == int_text(n as int),
{
    string_of(&crate::number::i64_text(n))
}

/// The long description, reference, stream reference and sync strategy
/// that come first in a stream's content.
fn first_items(content: &Vec<FixedStreamItem>) -> (r: (
    Option<&String>,
    Option<StreamReferenceItem>,
    Option<&String>,
    Option<&SyncStrategy>,
))
    ensures
        opt_text_ref(r.0) == first_some(
            items_view(content@),
            |x: FixedStreamItemView| long_description_of(x),
        ),
        opt_reference_ref(r.1) == first_some(
            items_view(content@),
            |x: FixedStreamItemView| reference_of(x),
        ),
        opt_text_ref(r.2) == first_some(
            items_view(content@),
            |x: FixedStreamItemView| stream_ref_of(x),
        ),
        opt_sync_ref(r.3) == first_sync(items_view(content@)),
{
    let ghost cs = items_view(content@);
    let ghost fl = |x: FixedStreamItemView| long_description_of(x);
    let ghost fr = |x: FixedStreamItemView| reference_of(x);
    let ghost fs = |x: FixedStreamItemView| stream_ref_of(x);
    let ghost fy = |x: FixedStreamItemView| sync_of(x);
    let mut long: Option<&String> = None;
    let mut reference: Option<StreamReferenceItem> = None;
    let mut stream_ref: Option<&String> = None;
    let mut sync: Option<&SyncStrategy> = None;
    let mut i: usize = 0;
    while i < content.len()
        invariant
            cs == items_view(content@),
            i <= content@.len(),
            fl == (|x: FixedStreamItemView| long_description_of(x)),
            fr == (|x: FixedStreamItemView| reference_of(x)),
            fs == (|x: FixedStreamItemView| stream_ref_of(x)),
            fy == (|x: FixedStreamItemView| sync_of(x)),
            opt_text_ref(long) == first_some(cs.take(i as int), fl),
            opt_reference_ref(reference) == first_some(cs.take(i as int), fr),
            opt_text_ref(stream_ref) == first_some(cs.take(i as int), fs),
            opt_sync_ref(sync) == first_some(cs.take(i as int), fy),
        decreases content.len() - i,
    {
        let ghost t = cs.take(i as int);
        let ghost t1 = cs.take(i + 1);
        proof {
            assert(cs[i as int] == content@[i as int]@);
            assert(t1 =~= t + seq![cs[i as int]]);
            lemma_first_some_append(t, cs[i as int], fl);
            lemma_first_some_append(t, cs[i as int], fr);
            lemma_first_some_append(t, cs[i as int], fs);
            lemma_first_some_append(t, cs[i as int], fy);
        }
        match &content[i] {
            FixedStreamItem::LongDescription(s) => {
                if long.is_none() {
                    long = Some(s);
                }
            },
            FixedStreamItem::ContainerRef(s) => {
                if reference.is_none() {
                    reference = Some(StreamReferenceItem::Container(s));
                }
            },
            FixedStreamItem::ServiceRef(s) => {
                if reference.is_none() {
                    reference = Some(StreamReferenceItem::Service(s));
                }
            },
            FixedStreamItem::StreamRef(s) => {
                if stream_ref.is_none() {
                    stream_ref = Some(s);
                }
            },
            FixedStreamItem::SyncStrategy(y) => {
                if sync.is_none() {
                    sync = Some(y);
                }
            },
            _ => {},
        }
        i = i + 1;
    }
    assert(cs.take(content@.len() as int) =~= cs);
    (long, reference, stream_ref, sync)
}

/// A borrowed reference of a stream.
pub enum StreamReferenceItem<'a> {
    Container(&'a String),
    Service(&'a String),
}

/// The value of an optional borrowed text.
pub open spec fn opt_text_ref(o: Option<&String>) -> Option<Seq<char>> {
    match o {
        Some(s) => Some(s@),
        None => None,
    }
}

/// The value of an optional borrowed reference.
pub open spec fn opt_reference_ref(o: Option<StreamReferenceItem>) -> Option<StreamReferenceView> {
    match o {
        Some(StreamReferenceItem::Container(s)) => Some(StreamReferenceView::Container(s@)),
        Some(StreamReferenceItem::Service(s)) => Some(StreamReferenceView::Service(s@)),
        None => None,
    }
}

/// The value of an optional borrowed sync strategy.
pub open spec fn opt_sync_ref(o: Option<&SyncStrategy>) -> Option<SyncStrategyView> {
    match o {
        Some(s) => Some(s@),
        None => None,
    }
}

/// The first result of `f` over one more item.
proof fn lemma_first_some_append<A, B>(s: Seq<A>, x: A, f: spec_fn(A) -> Option<B>)
    ensures
        first_some(s + seq![x], f) == match first_some(s, f) {
            Some(y) => Some(y),
            None => f(x),
        },
{
    crate::text::lemma_filter_map_concat(s, seq![x], f);
    crate::text::lemma_filter_map_single(x, f);
}


impl StreamValues {
    /// The texts the form shows for a fixed frame stream (see
    /// [`stream_values_of`]).
    pub fn from_stream(stream: Option<&FixedFrameStream>) -> (r: StreamValues)
        ensures
            r@ == stream_values_of(
                match stream {
                    Some(s) => Some(s@),
                    None => None,
                },
            ),
    {
        let empty: Vec<FixedStreamItem> = Vec::new();
        let content = match stream {
            Some(s) => &s.content,
            None => &empty,
        };
        assert(items_view(empty@) =~= Seq::<FixedStreamItemView>::empty());
        let (long, reference, stream_ref, sync) = first_items(content);
        let auto_invert = match sync {
            Some(y) => y.auto_invert.as_ref(),
            None => None,
        };
        StreamValues {
            name: match stream {
                Some(s) => s.name.clone(),
                None => String::new(),
            },
            bit_rate: match stream {
                Some(s) => text_of(&s.bit_rate_in_bps),
                None => String::new(),
            },
            pcm: match stream {
                Some(s) => s.pcm_type,
                None => PcmType::Nrzl,
            },
            inverted: match stream {
                Some(s) => if s.inverted {
                    BooleanChoice::True
                } else {
                    BooleanChoice::False
                },
                None => BooleanChoice::False,
            },
            sync_aperture: match stream {
                Some(s) => number(s.sync_aperture_in_bits),
                None => number(0),
            },
            frame_length: match stream {
                Some(s) => number(s.frame_length_in_bits),
                None => String::new(),
            },
            short_description: match stream {
                Some(s) => text_of(&s.short_description),
                None => String::new(),
            },
            long_description: match long {
                Some(s) => s.clone(),
                None => String::new(),
            },
            reference_kind: match reference {
                Some(StreamReferenceItem::Service(_)) => ReferenceKind::ServiceRef,
                _ => ReferenceKind::ContainerRef,
            },
            reference: match reference {
                Some(StreamReferenceItem::Container(r)) => r.clone(),
                Some(StreamReferenceItem::Service(r)) => r.clone(),
                None => String::new(),
            },
            stream_ref: match stream_ref {
                Some(s) => s.clone(),
                None => String::new(),
            },
            verify_to_lock: match sync {
                Some(y) => number(y.verify_to_lock_good_frames),
                None => number(4),
            },
            check_to_lock: match sync {
                Some(y) => number(y.check_to_lock_good_frames),
                None => number(1),
            },
            max_bit_errors: match sync {
                Some(y) => number(y.max_bit_errors_in_sync_pattern),
                None => number(0),
            },
            sync_pattern: match sync {
                Some(y) => y.sync_pattern.pattern.clone(),
                None => String::new(),
            },
            pattern_location: match sync {
                Some(y) => number(y.sync_pattern.bit_location_from_start_of_container),
                None => number(0),
            },
            pattern_mask: match sync {
                Some(y) => text_of(&y.sync_pattern.mask),
                None => String::new(),
            },
            mask_length: match sync {
                Some(y) => match y.sync_pattern.mask_length_in_bits {
                    Some(n) => number(n),
                    None => String::new(),
                },
                None => String::new(),
            },
            pattern_length: match sync {
                Some(y) => number(y.sync_pattern.pattern_length_in_bits),
                None => String::new(),
            },
            auto_invert_present: auto_invert.is_some(),
            bad_frames_to_auto_invert: match auto_invert {
                Some(a) => number(a.bad_frames_to_auto_invert),
                None => number(1024),
            },
            invert_algorithm_present: match auto_invert {
                Some(a) => a.invert_algorithm.is_some(),
                None => false,
            },
        }
    }
}

/// The configured algorithm that inverts a stream, if any.
pub fn invert_algorithm(stream: Option<&FixedFrameStream>) -> (r: Option<&InputAlgorithm>)
    ensures
        match r {
            Some(a) => invert_algorithm_of(opt_stream(stream)) == Some(a@),
            None => invert_algorithm_of(opt_stream(stream)) is None,
        },
{
    match stream {
        Some(s) => {
            let (_, _, _, sync) = first_items(&s.content);
            match sync {
                Some(y) => match &y.auto_invert {
                    Some(a) => a.invert_algorithm.as_ref(),
                    None => None,
                },
                None => None,
            }
        },
        None => None,
    }
}

/// The value of an optional borrowed stream.
pub open spec fn opt_stream(o: Option<&FixedFrameStream>) -> Option<FixedStreamView> {
    match o {
        Some(s) => Some(s@),
        None => None,
    }
}

/// The algorithm of the automatic inversion of the first sync strategy.
pub open spec fn invert_algorithm_of(s: Option<FixedStreamView>) -> Option<InputAlgorithmView> {
    match s {
        Some(s) => match first_sync(s.content) {
            Some(y) => match y.auto_invert {
                Some(a) => a.invert_algorithm,
                None => None,
            },
            None => None,
        },
        None => None,
    }
}

// ---------------------------------------------------------------------
// The stream the form gives back
// ---------------------------------------------------------------------

/// A whole number read from a trimmed text, or the current one when the
/// text does not read as one.
pub open spec fn updated_i64(text: Seq<char>, current: i64) -> i64 {
    match parse_i64_spec(trim(text)) {
        Some(n) => n,
        None => current,
    }
}

/// A number of a field: nothing when the trimmed text is blank or does not
/// read as one.
pub open spec fn optional_i64(text: Seq<char>) -> Option<i64> {
    if trim(text).len() == 0 {
        None
    } else {
        parse_i64_spec(trim(text))
    }
}

/// A decimal number of a field, as its trimmed text: nothing when the text
/// is blank or does not read as a number.
pub open spec fn optional_decimal(text: Seq<char>) -> Option<Seq<char>> {
    if trim(text).len() == 0 || !is_float_text(trim(text)) {
        None
    } else {
        Some(trim(text))
    }
}

/// The sync strategy after the form is applied: each number takes its
/// text when it reads as one, the pattern its text, the mask its trimmed
/// text; an automatic inversion is kept (with 1024 bad frames when it is
/// new) only when the form has one, with the algorithm of its sub-form
/// only when the form has one.
pub open spec fn applied_sync(
    v: StreamValuesView,
    y: SyncStrategyView,
    algorithm: InputAlgorithmView,
) -> SyncStrategyView {
    SyncStrategyView {
        verify_to_lock_good_frames: updated_i64(v.verify_to_lock, y.verify_to_lock_good_frames),
        check_to_lock_good_frames: updated_i64(v.check_to_lock, y.check_to_lock_good_frames),
        max_bit_errors_in_sync_pattern: updated_i64(
            v.max_bit_errors,
            y.max_bit_errors_in_sync_pattern,
        ),
        auto_invert: if v.auto_invert_present {
            let current = match y.auto_invert {
                Some(a) => a.bad_frames_to_auto_invert,
                None => 1024,
            };
            Some(
                AutoInvertView {
                    bad_frames_to_auto_invert: updated_i64(v.bad_frames_to_auto_invert, current),
                    invert_algorithm: if v.invert_algorithm_present {
                        Some(algorithm)
                    } else {
                        None
                    },
                },
            )
        } else {
            None
        },
        sync_pattern: SyncPatternView {
            pattern: v.sync_pattern,
            bit_location_from_start_of_container: updated_i64(
                v.pattern_location,
                y.sync_pattern.bit_location_from_start_of_container,
            ),
            mask: optional_text(v.pattern_mask),
            mask_length_in_bits: optional_i64(v.mask_length),
            pattern_length_in_bits: updated_i64(
                v.pattern_length,
                y.sync_pattern.pattern_length_in_bits,
            ),
        },
    }
}

/// The fixed frame stream after the form is applied, with the alias and
/// ancillary data sets of its sub-forms and the algorithm of its inversion
/// sub-form. The name and the sync pattern are taken as they are; the
/// descriptions, references and mask are trimmed and blank ones give
/// nothing, except the required reference; numbers take their text when it
/// reads as one and stay otherwise; the content is gathered by kind and
/// written back in the schema's order, with a sync strategy (the schema's
/// one when there was none).
pub open spec fn applied_stream(
    v: StreamValuesView,
    alias_set: Option<Seq<Alias<Seq<char>>>>,
    ancillary_data_set: Option<Seq<AncillaryData<Seq<char>>>>,
    algorithm: InputAlgorithmView,
    s: FixedStreamView,
) -> FixedStreamView {
    let c = gathered(s.content);
    let sync = match c.sync_strategy {
        Some(y) => y,
        None => default_sync_strategy_view(),
    };
    FixedStreamView {
        short_description: optional_text(v.short_description),
        name: v.name,
        bit_rate_in_bps: optional_decimal(v.bit_rate),
        pcm_type: v.pcm,
        inverted: v.inverted == BooleanChoice::True,
        sync_aperture_in_bits: updated_i64(v.sync_aperture, s.sync_aperture_in_bits),
        frame_length_in_bits: updated_i64(v.frame_length, s.frame_length_in_bits),
        content: content_items(
            StreamContentView {
                long_description: optional_text(v.long_description),
                alias_set,
                ancillary_data_set,
                reference: Some(
                    match v.reference_kind {
                        ReferenceKind::ContainerRef => StreamReferenceView::Container(v.reference),
                        ReferenceKind::ServiceRef => StreamReferenceView::Service(v.reference),
                    },
                ),
                stream_ref: optional_text(v.stream_ref),
                sync_strategy: Some(applied_sync(v, sync, algorithm)),
            },
        ),
    }
}

/// Reads a whole number from a trimmed text, keeping the current one when
/// the text does not read as one.
fn update_i64(target: &mut i64, text: &String)
    ensures
        *final(target) == updated_i64(text@, *old(target)),
{
    if let Some(n) = parse_i64(&trim_chars(&chars_of(text.as_str()))) {
        *target = n;
    }
}

/// Reads a decimal number of a field as its trimmed text.
pub fn decimal_of(text: &String) -> (r: Option<String>)
    ensures
        opt_text(r) == optional_decimal(text@),
{
    let t = trim_chars(&chars_of(text.as_str()));
    if t.len() == 0 || !is_float_chars(&t) {
        None
    } else {
        Some(string_of(&t))
    }
}

/// Applies the form to a fixed frame stream (see [`applied_stream`]).
pub fn apply_stream(
    values: &StreamValues,
    alias_rows: &Vec<Alias<String>>,
    ancillary_rows: &Vec<crate::ancillary::AncillaryRow>,
    algorithm: InputAlgorithm,
    stream: &mut FixedFrameStream,
)
    ensures
        final(stream)@ == applied_stream(
            values@,
            alias_set_of(alias_rows@),
            ancillary_set_of(ancillary_rows@),
            algorithm@,
            old(stream)@,
        ),
{
    stream.name = values.name.clone();
    stream.bit_rate_in_bps = decimal_of(&values.bit_rate);
    stream.pcm_type = values.pcm;
    stream.inverted = match values.inverted {
        BooleanChoice::True => true,
        BooleanChoice::False => false,
    };
    update_i64(&mut stream.sync_aperture_in_bits, &values.sync_aperture);
    update_i64(&mut stream.frame_length_in_bits, &values.frame_length);
    stream.short_description = optional(values.short_description.as_str());
    let mut content = StreamContent::take(&mut stream.content);
    content.long_description = optional(values.long_description.as_str());
    content.alias_set = crate::alias::value(alias_rows);
    content.ancillary_data_set = crate::ancillary::value(ancillary_rows);
    content.reference = Some(
        match values.reference_kind {
            ReferenceKind::ContainerRef => StreamReference::Container(values.reference.clone()),
            ReferenceKind::ServiceRef => StreamReference::Service(values.reference.clone()),
        },
    );
    content.stream_ref = optional(values.stream_ref.as_str());
    let mut sync = match content.sync_strategy.take() {
        Some(y) => y,
        None => default_sync_strategy(),
    };
    let ghost y0 = sync@;
    update_i64(&mut sync.verify_to_lock_good_frames, &values.verify_to_lock);
    update_i64(&mut sync.check_to_lock_good_frames, &values.check_to_lock);
    update_i64(&mut sync.max_bit_errors_in_sync_pattern, &values.max_bit_errors);
    sync.sync_pattern.pattern = values.sync_pattern.clone();
    update_i64(&mut sync.sync_pattern.bit_location_from_start_of_container, &values.pattern_location);
    sync.sync_pattern.mask = optional(values.pattern_mask.as_str());
    sync.sync_pattern.mask_length_in_bits = optional_parse::<i64>(values.mask_length.as_str());
    update_i64(&mut sync.sync_pattern.pattern_length_in_bits, &values.pattern_length);
    if values.auto_invert_present {
        let mut a = match sync.auto_invert.take() {
            Some(a) => a,
            None => AutoInvert { bad_frames_to_auto_invert: 1024, invert_algorithm: None },
        };
        update_i64(&mut a.bad_frames_to_auto_invert, &values.bad_frames_to_auto_invert);
        a.invert_algorithm = if values.invert_algorithm_present {
            Some(algorithm)
        } else {
            None
        };
        sync.auto_invert = Some(a);
    } else {
        sync.auto_invert = None;
    }
    assert(sync@ == applied_sync(values@, y0, algorithm@));
    content.sync_strategy = Some(sync);
    stream.content = content.into_content();
}


// ---------------------------------------------------------------------
// Custom streams
// ---------------------------------------------------------------------

/// An algorithm that reads inputs and writes outputs, possibly in a thread
/// of its own.
#[derive(Debug)]
pub struct InputOutputAlgorithm {
    pub algorithm: InputAlgorithm,
    pub thread: bool,
    pub output_set: Option<Vec<crate::algorithm::OutputRef<String>>>,
}

/// The value of an [`InputOutputAlgorithm`].
pub struct InputOutputAlgorithmView {
    pub algorithm: InputAlgorithmView,
    pub thread: bool,
    pub output_set: Option<Seq<crate::algorithm::OutputRef<Seq<char>>>>,
}

impl View for InputOutputAlgorithm {
    type V = InputOutputAlgorithmView;

    open spec fn view(&self) -> InputOutputAlgorithmView {
        InputOutputAlgorithmView {
            algorithm: self.algorithm@,
            thread: self.thread,
            output_set: match self.output_set {
                Some(v) => Some(crate::algorithm::outputs_view(v@)),
                None => None,
            },
        }
    }
}

/// A stream that another algorithm decodes from an encoded stream.
#[derive(Debug)]
pub struct CustomStream {
    pub short_description: Option<String>,
    pub name: String,
    pub bit_rate_in_bps: Option<String>,
    pub pcm_type: PcmType,
    pub inverted: bool,
    pub encoded_stream_ref: String,
    pub decoded_stream_ref: String,
    pub long_description: Option<String>,
    pub alias_set: Option<Vec<Alias<String>>>,
    pub ancillary_data_set: Option<Vec<AncillaryData<String>>>,
    pub encoding_algorithm: InputAlgorithm,
    pub decoding_algorithm: InputOutputAlgorithm,
}

/// The value of a custom stream.
pub struct CustomStreamView {
    pub short_description: Option<Seq<char>>,
    pub name: Seq<char>,
    pub bit_rate_in_bps: Option<Seq<char>>,
    pub pcm_type: PcmType,
    pub inverted: bool,
    pub encoded_stream_ref: Seq<char>,
    pub decoded_stream_ref: Seq<char>,
    pub long_description: Option<Seq<char>>,
    pub alias_set: Option<Seq<Alias<Seq<char>>>>,
    pub ancillary_data_set: Option<Seq<AncillaryData<Seq<char>>>>,
    pub encoding_algorithm: InputAlgorithmView,
    pub decoding_algorithm: InputOutputAlgorithmView,
}

impl View for CustomStream {
    type V = CustomStreamView;

    open spec fn view(&self) -> CustomStreamView {
        CustomStreamView {
            short_description: opt_text(self.short_description),
            name: self.name@,
            bit_rate_in_bps: opt_text(self.bit_rate_in_bps),
            pcm_type: self.pcm_type,
            inverted: self.inverted,
            encoded_stream_ref: self.encoded_stream_ref@,
            decoded_stream_ref: self.decoded_stream_ref@,
            long_description: opt_text(self.long_description),
            alias_set: match self.alias_set {
                Some(v) => Some(aliases_view(v@)),
                None => None,
            },
            ancillary_data_set: match self.ancillary_data_set {
                Some(v) => Some(entries_view(v@)),
                None => None,
            },
            encoding_algorithm: self.encoding_algorithm@,
            decoding_algorithm: self.decoding_algorithm@,
        }
    }
}

/// The name a new encoding algorithm gets.
pub open spec fn encoding_algorithm_name() -> Seq<char> {
    seq!['E', 'n', 'c', 'o', 'd', 'i', 'n', 'g', 'A', 'l', 'g', 'o', 'r', 'i', 't', 'h', 'm']
}

/// The name a new decoding algorithm gets.
pub open spec fn decoding_algorithm_name() -> Seq<char> {
    seq!['D', 'e', 'c', 'o', 'd', 'i', 'n', 'g', 'A', 'l', 'g', 'o', 'r', 'i', 't', 'h', 'm']
}

/// An algorithm with only a name.
pub open spec fn named_algorithm(name: Seq<char>) -> InputAlgorithmView {
    InputAlgorithmView {
        short_description: None,
        name,
        long_description: None,
        alias_set: None,
        ancillary_data_set: None,
        algorithm_text: None,
        external_algorithm_set: None,
        input_set: None,
    }
}

/// A new custom stream: NRZL, not inverted, empty stream references, and
/// encoding and decoding algorithms with only their names (the decoding
/// one not in a thread of its own).
pub open spec fn new_custom_stream(name: Seq<char>) -> CustomStreamView {
    CustomStreamView {
        short_description: None,
        name,
        bit_rate_in_bps: None,
        pcm_type: PcmType::Nrzl,
        inverted: false,
        encoded_stream_ref: Seq::empty(),
        decoded_stream_ref: Seq::empty(),
        long_description: None,
        alias_set: None,
        ancillary_data_set: None,
        encoding_algorithm: named_algorithm(encoding_algorithm_name()),
        decoding_algorithm: InputOutputAlgorithmView {
            algorithm: named_algorithm(decoding_algorithm_name()),
            thread: false,
            output_set: None,
        },
    }
}

fn algorithm_named(v: Vec<char>) -> (r: InputAlgorithm)
    ensures
        r@ == named_algorithm(v@),
{
    InputAlgorithm {
        short_description: None,
        name: string_of(&v),
        long_description: None,
        alias_set: None,
        ancillary_data_set: None,
        algorithm_text: None,
        external_algorithm_set: None,
        input_set: None,
    }
}

/// A new custom stream (see [`new_custom_stream`]).
pub fn default_custom_stream(name: String) -> (r: CustomStream)
    ensures
        r@ == new_custom_stream(name@),
{
    let e = vec!['E', 'n', 'c', 'o', 'd', 'i', 'n', 'g', 'A', 'l', 'g', 'o', 'r', 'i', 't', 'h', 'm'];
    let d = vec!['D', 'e', 'c', 'o', 'd', 'i', 'n', 'g', 'A', 'l', 'g', 'o', 'r', 'i', 't', 'h', 'm'];
    assert(e@ =~= encoding_algorithm_name());
    assert(d@ =~= decoding_algorithm_name());
    CustomStream {
        short_description: None,
        name,
        bit_rate_in_bps: None,
        pcm_type: PcmType::Nrzl,
        inverted: false,
        encoded_stream_ref: String::new(),
        decoded_stream_ref: String::new(),
        long_description: None,
        alias_set: None,
        ancillary_data_set: None,
        encoding_algorithm: algorithm_named(e),
        decoding_algorithm: InputOutputAlgorithm {
            algorithm: algorithm_named(d),
            thread: false,
            output_set: None,
        },
    }
}

/// The texts and choices of the custom stream form.
#[derive(Debug)]
pub struct CustomStreamValues {
    pub name: String,
    pub bit_rate: String,
    pub pcm: PcmType,
    pub inverted: BooleanChoice,
    pub encoded_stream_ref: String,
    pub decoded_stream_ref: String,
    pub short_description: String,
    pub long_description: String,
    pub encoding_name: String,
    pub encoding_short_description: String,
    pub encoding_long_description: String,
    pub encoding_language: String,
    pub encoding_text: String,
    pub decoding_name: String,
    pub decoding_thread: BooleanChoice,
    pub decoding_short_description: String,
    pub decoding_long_description: String,
    pub decoding_language: String,
    pub decoding_text: String,
}

/// The value of [`CustomStreamValues`].
pub struct CustomStreamValuesView {
    pub name: Seq<char>,
    pub bit_rate: Seq<char>,
    pub pcm: PcmType,
    pub inverted: BooleanChoice,
    pub encoded_stream_ref: Seq<char>,
    pub decoded_stream_ref: Seq<char>,
    pub short_description: Seq<char>,
    pub long_description: Seq<char>,
    pub encoding_name: Seq<char>,
    pub encoding_short_description: Seq<char>,
    pub encoding_long_description: Seq<char>,
    pub encoding_language: Seq<char>,
    pub encoding_text: Seq<char>,
    pub decoding_name: Seq<char>,
    pub decoding_thread: BooleanChoice,
    pub decoding_short_description: Seq<char>,
    pub decoding_long_description: Seq<char>,
    pub decoding_language: Seq<char>,
    pub decoding_text: Seq<char>,
}

impl View for CustomStreamValues {
    type V = CustomStreamValuesView;

    open spec fn view(&self) -> CustomStreamValuesView {
        CustomStreamValuesView {
            name: self.name@,
            bit_rate: self.bit_rate@,
            pcm: self.pcm,
            inverted: self.inverted,
            encoded_stream_ref: self.encoded_stream_ref@,
            decoded_stream_ref: self.decoded_stream_ref@,
            short_description: self.short_description@,
            long_description: self.long_description@,
            encoding_name: self.encoding_name@,
            encoding_short_description: self.encoding_short_description@,
            encoding_long_description: self.encoding_long_description@,
            encoding_language: self.encoding_language@,
            encoding_text: self.encoding_text@,
            decoding_name: self.decoding_name@,
            decoding_thread: self.decoding_thread,
            decoding_short_description: self.decoding_short_description@,
            decoding_long_description: self.decoding_long_description@,
            decoding_language: self.decoding_language@,
            decoding_text: self.decoding_text@,
        }
    }
}

/// The language of an algorithm's text, or the default one.
pub open spec fn language_of(a: InputAlgorithmView) -> Seq<char> {
    match a.algorithm_text {
        Some(t) => t.language,
        None => crate::algorithm::default_language_text(),
    }
}

/// The content of an algorithm's text, or the empty text.
pub open spec fn text_content_of(a: InputAlgorithmView) -> Seq<char> {
    match a.algorithm_text {
        Some(t) => t.content,
        None => Seq::empty(),
    }
}

/// The choice shown for a yes or no value.
pub open spec fn choice_of(b: bool) -> BooleanChoice {
    if b {
        BooleanChoice::True
    } else {
        BooleanChoice::False
    }
}

/// The texts the form shows for a custom stream; those of a new stream
/// when there is none.
pub open spec fn custom_stream_values_of(s: Option<CustomStreamView>) -> CustomStreamValuesView {
    let s = match s {
        Some(s) => s,
        None => CustomStreamView {
            name: Seq::empty(),
            ..new_custom_stream(Seq::empty())
        },
    };
    CustomStreamValuesView {
        name: s.name,
        bit_rate: text_or_empty(s.bit_rate_in_bps),
        pcm: s.pcm_type,
        inverted: choice_of(s.inverted),
        encoded_stream_ref: s.encoded_stream_ref,
        decoded_stream_ref: s.decoded_stream_ref,
        short_description: text_or_empty(s.short_description),
        long_description: text_or_empty(s.long_description),
        encoding_name: s.encoding_algorithm.name,
        encoding_short_description: text_or_empty(s.encoding_algorithm.short_description),
        encoding_long_description: text_or_empty(s.encoding_algorithm.long_description),
        encoding_language: language_of(s.encoding_algorithm),
        encoding_text: text_content_of(s.encoding_algorithm),
        decoding_name: s.decoding_algorithm.algorithm.name,
        decoding_thread: choice_of(s.decoding_algorithm.thread),
        decoding_short_description: text_or_empty(s.decoding_algorithm.algorithm.short_description),
        decoding_long_description: text_or_empty(s.decoding_algorithm.algorithm.long_description),
        decoding_language: language_of(s.decoding_algorithm.algorithm),
        decoding_text: text_content_of(s.decoding_algorithm.algorithm),
    }
}

fn language_and_text(a: &InputAlgorithm) -> (r: (String, String))
    ensures
        r.0@ == language_of(a@),
        r.1@ == text_content_of(a@),
{
    match &a.algorithm_text {
        Some(t) => (t.language.clone(), t.content.clone()),
        None => (crate::algorithm::default_language(), String::new()),
    }
}

fn choice(b: bool) -> (r: BooleanChoice)
    ensures
        r == choice_of(b),
{
    if b {
        BooleanChoice::True
    } else {
        BooleanChoice::False
    }
}

/// The texts the form shows for a custom stream (see
/// [`custom_stream_values_of`]).
pub fn custom_stream_values(stream: Option<&CustomStream>) -> (r: CustomStreamValues)
    ensures
        r@ == custom_stream_values_of(
            match stream {
                Some(s) => Some(s@),
                None => None,
            },
        ),
{
    let fresh;
    let s = match stream {
        Some(s) => s,
        None => {
            fresh = default_custom_stream(String::new());
            &fresh
        },
    };
    let (encoding_language, encoding_text) = language_and_text(&s.encoding_algorithm);
    let (decoding_language, decoding_text) = language_and_text(&s.decoding_algorithm.algorithm);
    CustomStreamValues {
        name: s.name.clone(),
        bit_rate: text_of(&s.bit_rate_in_bps),
        pcm: s.pcm_type,
        inverted: choice(s.inverted),
        encoded_stream_ref: s.encoded_stream_ref.clone(),
        decoded_stream_ref: s.decoded_stream_ref.clone(),
        short_description: text_of(&s.short_description),
        long_description: text_of(&s.long_description),
        encoding_name: s.encoding_algorithm.name.clone(),
        encoding_short_description: text_of(&s.encoding_algorithm.short_description),
        encoding_long_description: text_of(&s.encoding_algorithm.long_description),
        encoding_language,
        encoding_text,
        decoding_name: s.decoding_algorithm.algorithm.name.clone(),
        decoding_thread: choice(s.decoding_algorithm.thread),
        decoding_short_description: text_of(&s.decoding_algorithm.algorithm.short_description),
        decoding_long_description: text_of(&s.decoding_algorithm.algorithm.long_description),
        decoding_language,
        decoding_text,
    }
}

/// An algorithm with the form's name, descriptions and text; the rest
/// stays.
pub open spec fn applied_algorithm(
    a: InputAlgorithmView,
    name: Seq<char>,
    short_description: Seq<char>,
    long_description: Seq<char>,
    language: Seq<char>,
    text: Seq<char>,
) -> InputAlgorithmView {
    InputAlgorithmView {
        name,
        short_description: optional_text(short_description),
        long_description: optional_text(long_description),
        algorithm_text: crate::algorithm::algorithm_text_of(language, text),
        ..a
    }
}

/// The custom stream after the form is applied, with the alias and
/// ancillary data sets of its sub-forms. Names and stream references are
/// taken as they are; descriptions are trimmed and blank ones give
/// nothing; the bit rate is its trimmed text when that reads as a number;
/// an algorithm's text is none when the text is empty (see
/// [`algorithm_text_of`](crate::algorithm::algorithm_text_of)); the rest
/// of the algorithms stays.
pub open spec fn applied_custom_stream(
    v: CustomStreamValuesView,
    alias_set: Option<Seq<Alias<Seq<char>>>>,
    ancillary_data_set: Option<Seq<AncillaryData<Seq<char>>>>,
    s: CustomStreamView,
) -> CustomStreamView {
    CustomStreamView {
        short_description: optional_text(v.short_description),
        name: v.name,
        bit_rate_in_bps: optional_decimal(v.bit_rate),
        pcm_type: v.pcm,
        inverted: v.inverted == BooleanChoice::True,
        encoded_stream_ref: v.encoded_stream_ref,
        decoded_stream_ref: v.decoded_stream_ref,
        long_description: optional_text(v.long_description),
        alias_set,
        ancillary_data_set,
        encoding_algorithm: applied_algorithm(
            s.encoding_algorithm,
            v.encoding_name,
            v.encoding_short_description,
            v.encoding_long_description,
            v.encoding_language,
            v.encoding_text,
        ),
        decoding_algorithm: InputOutputAlgorithmView {
            algorithm: applied_algorithm(
                s.decoding_algorithm.algorithm,
                v.decoding_name,
                v.decoding_short_description,
                v.decoding_long_description,
                v.decoding_language,
                v.decoding_text,
            ),
            thread: v.decoding_thread == BooleanChoice::True,
            output_set: s.decoding_algorithm.output_set,
        },
    }
}

/// Applies the form to a custom stream (see [`applied_custom_stream`]).
pub fn apply_custom_stream(
    values: &CustomStreamValues,
    alias_rows: &Vec<Alias<String>>,
    ancillary_rows: &Vec<crate::ancillary::AncillaryRow>,
    stream: &mut CustomStream,
)
    ensures
        final(stream)@ == applied_custom_stream(
            values@,
            alias_set_of(alias_rows@),
            ancillary_set_of(ancillary_rows@),
            old(stream)@,
        ),
{
    stream.name = values.name.clone();
    stream.bit_rate_in_bps = decimal_of(&values.bit_rate);
    stream.pcm_type = values.pcm;
    stream.inverted = values.inverted == BooleanChoice::True;
    stream.encoded_stream_ref = values.encoded_stream_ref.clone();
    stream.decoded_stream_ref = values.decoded_stream_ref.clone();
    stream.short_description = optional(values.short_description.as_str());
    stream.long_description = optional(values.long_description.as_str());
    stream.alias_set = crate::alias::value(alias_rows);
    stream.ancillary_data_set = crate::ancillary::value(ancillary_rows);
    let e = &mut stream.encoding_algorithm;
    e.algorithm_text = crate::algorithm::decode_algorithm_text(
        values.encoding_language.clone(),
        values.encoding_text.clone(),
    );
    e.name = values.encoding_name.clone();
    e.short_description = optional(values.encoding_short_description.as_str());
    e.long_description = optional(values.encoding_long_description.as_str());
    let d = &mut stream.decoding_algorithm;
    d.algorithm.algorithm_text = crate::algorithm::decode_algorithm_text(
        values.decoding_language.clone(),
        values.decoding_text.clone(),
    );
    d.algorithm.name = values.decoding_name.clone();
    d.thread = values.decoding_thread == BooleanChoice::True;
    d.algorithm.short_description = optional(values.decoding_short_description.as_str());
    d.algorithm.long_description = optional(values.decoding_long_description.as_str());
}

// ---------------------------------------------------------------------
// Showing a fixed frame stream and applying it back
// ---------------------------------------------------------------------

proof fn lemma_first_some_push_opt<A, B>(s: Seq<A>, o: Option<A>, f: spec_fn(A) -> Option<B>)
    ensures
        first_some(push_opt(s, o), f) == match first_some(s, f) {
            Some(y) => Some(y),
            None => match o {
                Some(x) => f(x),
                None => None,
            },
        },
{
    if let Some(x) = o {
        assert(s.push(x) =~= s + seq![x]);
        lemma_first_some_append(s, x, f);
    }
}

/// The items written for gathered content hold, first of each kind, the
/// content's long description, reference, stream reference and sync
/// strategy.
proof fn lemma_first_items(c: StreamContentView)
    ensures
        first_some(content_items(c), |x: FixedStreamItemView| long_description_of(x))
            == c.long_description,
        first_some(content_items(c), |x: FixedStreamItemView| reference_of(x)) == c.reference,
        first_some(content_items(c), |x: FixedStreamItemView| stream_ref_of(x)) == c.stream_ref,
        first_sync(content_items(c)) == c.sync_strategy,
{
    let o1 = match c.long_description {
        Some(s) => Some(FixedStreamItemView::LongDescription(s)),
        None => None,
    };
    let o2 = match c.alias_set {
        Some(v) => Some(FixedStreamItemView::AliasSet(v)),
        None => None,
    };
    let o3 = match c.ancillary_data_set {
        Some(v) => Some(FixedStreamItemView::AncillaryDataSet(v)),
        None => None,
    };
    let o4 = match c.reference {
        Some(StreamReferenceView::Container(s)) => Some(FixedStreamItemView::ContainerRef(s)),
        Some(StreamReferenceView::Service(s)) => Some(FixedStreamItemView::ServiceRef(s)),
        None => None,
    };
    let o5 = match c.stream_ref {
        Some(s) => Some(FixedStreamItemView::StreamRef(s)),
        None => None,
    };
    let o6 = match c.sync_strategy {
        Some(s) => Some(FixedStreamItemView::SyncStrategy(s)),
        None => None,
    };
    let s0 = Seq::<FixedStreamItemView>::empty();
    let s1 = push_opt(s0, o1);
    let s2 = push_opt(s1, o2);
    let s3 = push_opt(s2, o3);
    let s4 = push_opt(s3, o4);
    let s5 = push_opt(s4, o5);
    let s6 = push_opt(s5, o6);
    assert(s6 == content_items(c));
    let fl = |x: FixedStreamItemView| long_description_of(x);
    let fr = |x: FixedStreamItemView| reference_of(x);
    let fs = |x: FixedStreamItemView| stream_ref_of(x);
    let fy = |x: FixedStreamItemView| sync_of(x);
    assert(first_some(s0, fl) is None && first_some(s0, fr) is None);
    assert(first_some(s0, fs) is None && first_some(s0, fy) is None);
    lemma_first_some_push_opt(s0, o1, fl);
    lemma_first_some_push_opt(s1, o2, fl);
    lemma_first_some_push_opt(s2, o3, fl);
    lemma_first_some_push_opt(s3, o4, fl);
    lemma_first_some_push_opt(s4, o5, fl);
    lemma_first_some_push_opt(s5, o6, fl);
    lemma_first_some_push_opt(s0, o1, fr);
    lemma_first_some_push_opt(s1, o2, fr);
    lemma_first_some_push_opt(s2, o3, fr);
    lemma_first_some_push_opt(s3, o4, fr);
    lemma_first_some_push_opt(s4, o5, fr);
    lemma_first_some_push_opt(s5, o6, fr);
    lemma_first_some_push_opt(s0, o1, fs);
    lemma_first_some_push_opt(s1, o2, fs);
    lemma_first_some_push_opt(s2, o3, fs);
    lemma_first_some_push_opt(s3, o4, fs);
    lemma_first_some_push_opt(s4, o5, fs);
    lemma_first_some_push_opt(s5, o6, fs);
    lemma_first_some_push_opt(s0, o1, fy);
    lemma_first_some_push_opt(s1, o2, fy);
    lemma_first_some_push_opt(s2, o3, fy);
    lemma_first_some_push_opt(s3, o4, fy);
    lemma_first_some_push_opt(s4, o5, fy);
    lemma_first_some_push_opt(s5, o6, fy);
}

/// Whether the form shows a fixed frame stream as it is and gives it back
/// unchanged: its content holds at most one item of each kind, in the
/// schema's order, with a reference and a sync strategy; its optional
/// texts (the descriptions, stream reference and mask) are non-empty and
/// trimmed, and its bit rate is the trimmed text of a number.
pub open spec fn clean_stream(s: FixedStreamView) -> bool {
    let c = gathered(s.content);
    &&& s.content == content_items(c)
    &&& c.reference is Some
    &&& c.sync_strategy is Some
    &&& clean_optional(s.short_description)
    &&& clean_optional(c.long_description)
    &&& clean_optional(c.stream_ref)
    &&& clean_optional(c.sync_strategy->Some_0.sync_pattern.mask)
    &&& match s.bit_rate_in_bps {
        Some(t) => t.len() > 0 && is_trimmed(t) && is_float_text(t),
        None => true,
    }
}

proof fn lemma_number_back(n: i64, any: i64)
    ensures
        updated_i64(int_text(n as int), any) == n,
        optional_i64(int_text(n as int)) == Some(n),
{
    crate::number::lemma_i64_round_trip(n);
    crate::text::lemma_trim_trimmed(int_text(n as int));
}

/// Applying the form to a fixed frame stream it shows gives the stream
/// back, when the stream is clean (see [`clean_stream`]), the alias and
/// ancillary data sub-forms give back the stream's sets and the inversion
/// sub-form holds the stream's invert algorithm.
pub proof fn lemma_stream_round_trip(s: FixedStreamView, algorithm: InputAlgorithmView)
    requires
        clean_stream(s),
        gathered(s.content).sync_strategy->Some_0.auto_invert matches Some(a) ==> (
        a.invert_algorithm matches Some(x) ==> x == algorithm),
    ensures
        applied_stream(
            stream_values_of(Some(s)),
            gathered(s.content).alias_set,
            gathered(s.content).ancillary_data_set,
            algorithm,
            s,
        ) == s,
{
    let c = gathered(s.content);
    let y = c.sync_strategy->Some_0;
    let v = stream_values_of(Some(s));
    lemma_first_items(c);
    crate::fields::lemma_optional_back(s.short_description);
    crate::fields::lemma_optional_back(c.long_description);
    crate::fields::lemma_optional_back(c.stream_ref);
    crate::fields::lemma_optional_back(y.sync_pattern.mask);
    lemma_number_back(s.sync_aperture_in_bits, s.sync_aperture_in_bits);
    lemma_number_back(s.frame_length_in_bits, s.frame_length_in_bits);
    lemma_number_back(y.verify_to_lock_good_frames, y.verify_to_lock_good_frames);
    lemma_number_back(y.check_to_lock_good_frames, y.check_to_lock_good_frames);
    lemma_number_back(y.max_bit_errors_in_sync_pattern, y.max_bit_errors_in_sync_pattern);
    lemma_number_back(
        y.sync_pattern.bit_location_from_start_of_container,
        y.sync_pattern.bit_location_from_start_of_container,
    );
    lemma_number_back(y.sync_pattern.pattern_length_in_bits, y.sync_pattern.pattern_length_in_bits);
    match y.sync_pattern.mask_length_in_bits {
        Some(n) => lemma_number_back(n, n),
        None => crate::text::lemma_trim_trimmed(Seq::<char>::empty()),
    }
    match y.auto_invert {
        Some(a) => lemma_number_back(a.bad_frames_to_auto_invert, a.bad_frames_to_auto_invert),
        None => {},
    }
    match s.bit_rate_in_bps {
        Some(t) => crate::text::lemma_trim_trimmed(t),
        None => crate::text::lemma_trim_trimmed(Seq::<char>::empty()),
    }
    assert(applied_sync(v, y, algorithm) == y);
    let back = StreamContentView {
        long_description: optional_text(v.long_description),
        alias_set: c.alias_set,
        ancillary_data_set: c.ancillary_data_set,
        reference: Some(
            match v.reference_kind {
                ReferenceKind::ContainerRef => StreamReferenceView::Container(v.reference),
                ReferenceKind::ServiceRef => StreamReferenceView::Service(v.reference),
            },
        ),
        stream_ref: optional_text(v.stream_ref),
        sync_strategy: Some(applied_sync(v, y, algorithm)),
    };
    assert(back == c);
}

/// Whether the form shows an algorithm's descriptions and text as they
/// are: the descriptions are non-empty and trimmed, and a text has a
/// language and some content.
pub open spec fn clean_algorithm(a: InputAlgorithmView) -> bool {
    &&& clean_optional(a.short_description)
    &&& clean_optional(a.long_description)
    &&& match a.algorithm_text {
        Some(t) => t.language.len() > 0 && t.content.len() > 0,
        None => true,
    }
}

/// Whether the form shows a custom stream as it is and gives it back
/// unchanged: its descriptions and those of its algorithms are non-empty
/// and trimmed, an algorithm's text has a language and some content, and
/// its bit rate is the trimmed text of a number.
pub open spec fn clean_custom_stream(s: CustomStreamView) -> bool {
    &&& clean_optional(s.short_description)
    &&& clean_optional(s.long_description)
    &&& clean_algorithm(s.encoding_algorithm)
    &&& clean_algorithm(s.decoding_algorithm.algorithm)
    &&& match s.bit_rate_in_bps {
        Some(t) => t.len() > 0 && is_trimmed(t) && is_float_text(t),
        None => true,
    }
}

proof fn lemma_algorithm_back(a: InputAlgorithmView)
    requires
        clean_algorithm(a),
    ensures
        applied_algorithm(
            a,
            a.name,
            text_or_empty(a.short_description),
            text_or_empty(a.long_description),
            language_of(a),
            text_content_of(a),
        ) == a,
{
    crate::fields::lemma_optional_back(a.short_description);
    crate::fields::lemma_optional_back(a.long_description);
}

/// Applying the form to a custom stream it shows gives the stream back,
/// when the stream is clean (see [`clean_custom_stream`]) and the alias
/// and ancillary data sub-forms give back the stream's sets.
pub proof fn lemma_custom_stream_round_trip(s: CustomStreamView)
    requires
        clean_custom_stream(s),
    ensures
        applied_custom_stream(
            custom_stream_values_of(Some(s)),
            s.alias_set,
            s.ancillary_data_set,
            s,
        ) == s,
{
    crate::fields::lemma_optional_back(s.short_description);
    crate::fields::lemma_optional_back(s.long_description);
    lemma_algorithm_back(s.encoding_algorithm);
    lemma_algorithm_back(s.decoding_algorithm.algorithm);
    match s.bit_rate_in_bps {
        Some(t) => crate::text::lemma_trim_trimmed(t),
        None => crate::text::lemma_trim_trimmed(Seq::<char>::empty()),
    }
}

} // verus!
