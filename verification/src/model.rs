//! The parts of an XTCE space system that the editor's logic reads: named
//! collection entries, the metadata sets that hold them, nested space
//! systems, and the selection of one element in that tree.
use vstd::prelude::*;
use crate::alias::{Alias, aliases_view};
use crate::ancillary::AncillaryData;
use crate::header::{Header, HeaderView};

verus! {

/// The XTCE element an entry of a collection is.
#[derive(Clone, Copy, Debug, PartialEq, Eq, Structural)]
pub enum EntryVariant {
    StringParameterType,
    EnumeratedParameterType,
    IntegerParameterType,
    BinaryParameterType,
    FloatParameterType,
    BooleanParameterType,
    RelativeTimeParameterType,
    AbsoluteTimeParameterType,
    ArrayParameterType,
    AggregateParameterType,
    Parameter,
    ParameterRef,
    SequenceContainer,
    Message,
    StringArgumentType,
    EnumeratedArgumentType,
    IntegerArgumentType,
    BinaryArgumentType,
    FloatArgumentType,
    BooleanArgumentType,
    RelativeTimeArgumentType,
    AbsoluteTimeArgumentType,
    ArrayArgumentType,
    AggregateArgumentType,
    MetaCommand,
    BlockMetaCommand,
    MetaCommandRef,
    CommandContainer,
    Service,
    FixedFrameStream,
    VariableFrameStream,
    CustomStream,
    CustomAlgorithm,
    MathAlgorithm,
}

/// Entries that only point at an element defined elsewhere and carry no
/// name of their own.
pub open spec fn is_reference(v: EntryVariant) -> bool {
    v == EntryVariant::ParameterRef || v == EntryVariant::MetaCommandRef
}

/// Executable form of [`is_reference`].
pub fn is_reference_variant(v: EntryVariant) -> (r: bool)
    ensures
        r == is_reference(v),
{
    v == EntryVariant::ParameterRef || v == EntryVariant::MetaCommandRef
}

/// One element of a collection: its kind, its name (for a reference entry,
/// the referenced target), and the rest of its content, kept as it is.
#[derive(Debug)]
pub struct Entry {
    pub variant: EntryVariant,
    pub name: String,
    pub content: String,
}

/// The value of an [`Entry`].
pub struct EntryView {
    pub variant: EntryVariant,
    pub name: Seq<char>,
    pub content: Seq<char>,
}

impl View for Entry {
    type V = EntryView;

    open spec fn view(&self) -> EntryView {
        EntryView { variant: self.variant, name: self.name@, content: self.content@ }
    }
}

impl Entry {
    /// A copy of the entry.
    pub fn clone_entry(&self) -> (r: Entry)
        ensures
            r@ == self@,
    {
        Entry { variant: self.variant, name: self.name.clone(), content: self.content.clone() }
    }
}

/// The values of a sequence of entries.
pub open spec fn entries_view(s: Seq<Entry>) -> Seq<EntryView> {
    s.map_values(|e: Entry| e@)
}

/// The values of an optional collection.
pub open spec fn opt_entries_view(o: Option<Vec<Entry>>) -> Option<Seq<EntryView>> {
    match o {
        Some(v) => Some(entries_view(v@)),
        None => None,
    }
}

/// The sets of a telemetry or command metadata block; each is absent until
/// it is added.
#[derive(Debug)]
pub struct MetaData {
    pub parameter_type_set: Option<Vec<Entry>>,
    pub parameter_set: Option<Vec<Entry>>,
    pub container_set: Option<Vec<Entry>>,
    pub message_set: Option<Vec<Entry>>,
    pub stream_set: Option<Vec<Entry>>,
    pub algorithm_set: Option<Vec<Entry>>,
    pub argument_type_set: Option<Vec<Entry>>,
    pub meta_command_set: Option<Vec<Entry>>,
    pub command_container_set: Option<Vec<Entry>>,
}

/// The value of a [`MetaData`].
pub struct MetaDataView {
    pub parameter_type_set: Option<Seq<EntryView>>,
    pub parameter_set: Option<Seq<EntryView>>,
    pub container_set: Option<Seq<EntryView>>,
    pub message_set: Option<Seq<EntryView>>,
    pub stream_set: Option<Seq<EntryView>>,
    pub algorithm_set: Option<Seq<EntryView>>,
    pub argument_type_set: Option<Seq<EntryView>>,
    pub meta_command_set: Option<Seq<EntryView>>,
    pub command_container_set: Option<Seq<EntryView>>,
}

impl View for MetaData {
    type V = MetaDataView;

    open spec fn view(&self) -> MetaDataView {
        MetaDataView {
            parameter_type_set: opt_entries_view(self.parameter_type_set),
            parameter_set: opt_entries_view(self.parameter_set),
            container_set: opt_entries_view(self.container_set),
            message_set: opt_entries_view(self.message_set),
            stream_set: opt_entries_view(self.stream_set),
            algorithm_set: opt_entries_view(self.algorithm_set),
            argument_type_set: opt_entries_view(self.argument_type_set),
            meta_command_set: opt_entries_view(self.meta_command_set),
            command_container_set: opt_entries_view(self.command_container_set),
        }
    }
}

/// The value of an optional metadata block.
pub open spec fn opt_meta_view(o: Option<MetaData>) -> Option<MetaDataView> {
    match o {
        Some(m) => Some(m@),
        None => None,
    }
}

/// A space system: its name, header, alias and ancillary data sets, its
/// metadata blocks, its services and the space systems nested in it.
#[derive(Debug)]
pub struct SpaceSystem {
    pub name: String,
    pub header: Option<Header>,
    pub alias_set: Option<Vec<Alias<String>>>,
    pub ancillary_data_set: Option<Vec<AncillaryData<String>>>,
    pub telemetry_meta_data: Option<MetaData>,
    pub command_meta_data: Option<MetaData>,
    pub service_set: Option<Vec<Entry>>,
    pub space_system: Vec<SpaceSystem>,
}

/// The value of a [`SpaceSystem`].
pub struct SpaceSystemView {
    pub name: Seq<char>,
    pub header: Option<HeaderView>,
    pub alias_set: Option<Seq<Alias<Seq<char>>>>,
    pub ancillary_data_set: Option<Seq<AncillaryData<Seq<char>>>>,
    pub telemetry_meta_data: Option<MetaDataView>,
    pub command_meta_data: Option<MetaDataView>,
    pub service_set: Option<Seq<EntryView>>,
    pub space_system: Seq<SpaceSystemView>,
}

/// The value of a space system.
pub open spec fn system_view(s: SpaceSystem) -> SpaceSystemView
    decreases s,
{
    SpaceSystemView {
        name: s.name@,
        header: match s.header {
            Some(h) => Some(h@),
            None => None,
        },
        alias_set: match s.alias_set {
            Some(v) => Some(aliases_view(v@)),
            None => None,
        },
        ancillary_data_set: match s.ancillary_data_set {
            Some(v) => Some(crate::ancillary::entries_view(v@)),
            None => None,
        },
        telemetry_meta_data: opt_meta_view(s.telemetry_meta_data),
        command_meta_data: opt_meta_view(s.command_meta_data),
        service_set: opt_entries_view(s.service_set),
        space_system: systems_view(s.space_system@),
    }
}

/// The values of a sequence of space systems.
pub open spec fn systems_view(s: Seq<SpaceSystem>) -> Seq<SpaceSystemView>
    decreases s,
{
    if s.len() == 0 {
        Seq::empty()
    } else {
        proof {
            assert(decreases_to!(s => s.last()));
        }
        systems_view(s.drop_last()).push(system_view(s.last()))
    }
}

impl View for SpaceSystem {
    type V = SpaceSystemView;

    open spec fn view(&self) -> SpaceSystemView {
        system_view(*self)
    }
}

pub proof fn lemma_systems_view(s: Seq<SpaceSystem>)
    ensures
        systems_view(s).len() == s.len(),
        forall|i: int| 0 <= i < s.len() ==> #[trigger] systems_view(s)[i] == system_view(s[i]),
    decreases s.len(),
{
    if s.len() > 0 {
        lemma_systems_view(s.drop_last());
    }
}

/// The element of a space system that is selected in the editor.
#[derive(Clone, Copy, Debug, PartialEq, Eq, Structural)]
pub enum ElementKind {
    SpaceSystem,
    TelemetryMetaData,
    CommandMetaData,
    TelemetryParameterTypeSet,
    CommandParameterTypeSet,
    TelemetryParameterSet,
    CommandParameterSet,
    ContainerSet,
    CommandContainerSet,
    ArgumentTypeSet,
    MetaCommandSet,
    MessageSet,
    ServiceSet,
    TelemetryStreamSet,
    CommandStreamSet,
    TelemetryAlgorithmSet,
    CommandAlgorithmSet,
    TelemetryParameterType(usize),
    CommandParameterType(usize),
    TelemetryParameter(usize),
    CommandParameter(usize),
    SequenceContainer(usize),
    Message(usize),
    ArgumentType(usize),
    MetaCommand(usize),
    CommandContainer(usize),
    Service(usize),
    TelemetryFixedFrameStream(usize),
    TelemetryVariableFrameStream(usize),
    TelemetryCustomStream(usize),
    CommandFixedFrameStream(usize),
    CommandVariableFrameStream(usize),
    CommandCustomStream(usize),
    TelemetryCustomAlgorithm(usize),
    TelemetryMathAlgorithm(usize),
    CommandCustomAlgorithm(usize),
    CommandMathAlgorithm(usize),
}

/// A selected element: the indices of the nested space systems that lead
/// to its space system, and the element within it.
#[derive(Debug)]
pub struct ElementSelection {
    pub system_path: Vec<usize>,
    pub kind: ElementKind,
}

} // verus!
