//! Finding and duplicating the selected element of a space system tree.
use vstd::prelude::*;
use crate::alias::Alias;
use crate::ancillary::AncillaryRow;
use crate::custom::{alias_set_of, ancillary_set_of};
use crate::duplicate::{copy_of, duplicate_item};
use crate::header::{HeaderValues, HeaderValuesView, header_of_values};
use crate::model::{ElementKind, ElementSelection, Entry, EntryVariant, EntryView, MetaData, MetaDataView, SpaceSystem, SpaceSystemView, lemma_systems_view, opt_entries_view, opt_meta_view, system_view, systems_view};

verus! {

/// One of the sets of a metadata block.
#[derive(Clone, Copy, Debug, PartialEq, Eq, Structural)]
pub enum MetaSet {
    ParameterTypes,
    Parameters,
    Containers,
    Messages,
    Streams,
    Algorithms,
    ArgumentTypes,
    MetaCommands,
    CommandContainers,
}

/// Where a collection of a space system lives.
#[derive(Clone, Copy, Debug, PartialEq, Eq, Structural)]
pub enum Collection {
    Telemetry(MetaSet),
    Command(MetaSet),
    Services,
}

/// The entries of one set of a metadata block, if the set is present.
pub open spec fn meta_set(m: MetaDataView, f: MetaSet) -> Option<Seq<EntryView>> {
    match f {
        MetaSet::ParameterTypes => m.parameter_type_set,
        MetaSet::Parameters => m.parameter_set,
        MetaSet::Containers => m.container_set,
        MetaSet::Messages => m.message_set,
        MetaSet::Streams => m.stream_set,
        MetaSet::Algorithms => m.algorithm_set,
        MetaSet::ArgumentTypes => m.argument_type_set,
        MetaSet::MetaCommands => m.meta_command_set,
        MetaSet::CommandContainers => m.command_container_set,
    }
}

/// The metadata block with one set replaced.
pub open spec fn meta_with_set(m: MetaDataView, f: MetaSet, items: Seq<EntryView>) -> MetaDataView {
    match f {
        MetaSet::ParameterTypes => MetaDataView { parameter_type_set: Some(items), ..m },
        MetaSet::Parameters => MetaDataView { parameter_set: Some(items), ..m },
        MetaSet::Containers => MetaDataView { container_set: Some(items), ..m },
        MetaSet::Messages => MetaDataView { message_set: Some(items), ..m },
        MetaSet::Streams => MetaDataView { stream_set: Some(items), ..m },
        MetaSet::Algorithms => MetaDataView { algorithm_set: Some(items), ..m },
        MetaSet::ArgumentTypes => MetaDataView { argument_type_set: Some(items), ..m },
        MetaSet::MetaCommands => MetaDataView { meta_command_set: Some(items), ..m },
        MetaSet::CommandContainers => MetaDataView { command_container_set: Some(items), ..m },
    }
}

/// The entries of a collection of a space system, if it is present.
pub open spec fn collection(s: SpaceSystemView, c: Collection) -> Option<Seq<EntryView>> {
    match c {
        Collection::Telemetry(f) => match s.telemetry_meta_data {
            Some(m) => meta_set(m, f),
            None => None,
        },
        Collection::Command(f) => match s.command_meta_data {
            Some(m) => meta_set(m, f),
            None => None,
        },
        Collection::Services => s.service_set,
    }
}

/// The space system with one of its present collections replaced.
pub open spec fn with_collection(s: SpaceSystemView, c: Collection, items: Seq<EntryView>) -> SpaceSystemView {
    match c {
        Collection::Telemetry(f) => SpaceSystemView {
            telemetry_meta_data: Some(meta_with_set(s.telemetry_meta_data->Some_0, f, items)),
            ..s
        },
        Collection::Command(f) => SpaceSystemView {
            command_meta_data: Some(meta_with_set(s.command_meta_data->Some_0, f, items)),
            ..s
        },
        Collection::Services => SpaceSystemView { service_set: Some(items), ..s },
    }
}

/// The collection an element kind indexes into, with the index.
pub open spec fn kind_target(kind: ElementKind) -> Option<(Collection, usize)> {
    match kind {
        ElementKind::TelemetryParameterType(i) => Some(
            (Collection::Telemetry(MetaSet::ParameterTypes), i),
        ),
        ElementKind::CommandParameterType(i) => Some(
            (Collection::Command(MetaSet::ParameterTypes), i),
        ),
        ElementKind::TelemetryParameter(i) => Some((Collection::Telemetry(MetaSet::Parameters), i)),
        ElementKind::CommandParameter(i) => Some((Collection::Command(MetaSet::Parameters), i)),
        ElementKind::SequenceContainer(i) => Some((Collection::Telemetry(MetaSet::Containers), i)),
        ElementKind::Message(i) => Some((Collection::Telemetry(MetaSet::Messages), i)),
        ElementKind::ArgumentType(i) => Some((Collection::Command(MetaSet::ArgumentTypes), i)),
        ElementKind::MetaCommand(i) => Some((Collection::Command(MetaSet::MetaCommands), i)),
        ElementKind::CommandContainer(i) => Some(
            (Collection::Command(MetaSet::CommandContainers), i),
        ),
        ElementKind::Service(i) => Some((Collection::Services, i)),
        ElementKind::TelemetryFixedFrameStream(i) => Some(
            (Collection::Telemetry(MetaSet::Streams), i),
        ),
        ElementKind::TelemetryVariableFrameStream(i) => Some(
            (Collection::Telemetry(MetaSet::Streams), i),
        ),
        ElementKind::TelemetryCustomStream(i) => Some((Collection::Telemetry(MetaSet::Streams), i)),
        ElementKind::CommandFixedFrameStream(i) => Some((Collection::Command(MetaSet::Streams), i)),
        ElementKind::CommandVariableFrameStream(i) => Some(
            (Collection::Command(MetaSet::Streams), i),
        ),
        ElementKind::CommandCustomStream(i) => Some((Collection::Command(MetaSet::Streams), i)),
        ElementKind::TelemetryCustomAlgorithm(i) => Some(
            (Collection::Telemetry(MetaSet::Algorithms), i),
        ),
        ElementKind::TelemetryMathAlgorithm(i) => Some(
            (Collection::Telemetry(MetaSet::Algorithms), i),
        ),
        ElementKind::CommandCustomAlgorithm(i) => Some(
            (Collection::Command(MetaSet::Algorithms), i),
        ),
        ElementKind::CommandMathAlgorithm(i) => Some((Collection::Command(MetaSet::Algorithms), i)),
        _ => None,
    }
}

/// The kind that selects entry `index` of collection `c`, whose variant is
/// `v`: streams and algorithms are told apart by the entry's variant.
pub open spec fn kind_at(c: Collection, index: usize, v: EntryVariant) -> ElementKind {
    match c {
        Collection::Telemetry(MetaSet::ParameterTypes) => ElementKind::TelemetryParameterType(index),
        Collection::Command(MetaSet::ParameterTypes) => ElementKind::CommandParameterType(index),
        Collection::Telemetry(MetaSet::Parameters) => ElementKind::TelemetryParameter(index),
        Collection::Command(MetaSet::Parameters) => ElementKind::CommandParameter(index),
        Collection::Telemetry(MetaSet::Containers) => ElementKind::SequenceContainer(index),
        Collection::Telemetry(MetaSet::Messages) => ElementKind::Message(index),
        Collection::Command(MetaSet::ArgumentTypes) => ElementKind::ArgumentType(index),
        Collection::Command(MetaSet::MetaCommands) => ElementKind::MetaCommand(index),
        Collection::Command(MetaSet::CommandContainers) => ElementKind::CommandContainer(index),
        Collection::Services => ElementKind::Service(index),
        Collection::Telemetry(MetaSet::Streams) => if v == EntryVariant::FixedFrameStream {
            ElementKind::TelemetryFixedFrameStream(index)
        } else if v == EntryVariant::VariableFrameStream {
            ElementKind::TelemetryVariableFrameStream(index)
        } else {
            ElementKind::TelemetryCustomStream(index)
        },
        Collection::Command(MetaSet::Streams) => if v == EntryVariant::FixedFrameStream {
            ElementKind::CommandFixedFrameStream(index)
        } else if v == EntryVariant::VariableFrameStream {
            ElementKind::CommandVariableFrameStream(index)
        } else {
            ElementKind::CommandCustomStream(index)
        },
        Collection::Telemetry(MetaSet::Algorithms) => if v == EntryVariant::CustomAlgorithm {
            ElementKind::TelemetryCustomAlgorithm(index)
        } else {
            ElementKind::TelemetryMathAlgorithm(index)
        },
        Collection::Command(MetaSet::Algorithms) => if v == EntryVariant::CustomAlgorithm {
            ElementKind::CommandCustomAlgorithm(index)
        } else {
            ElementKind::CommandMathAlgorithm(index)
        },
        _ => ElementKind::SpaceSystem,
    }
}

/// The space system reached from `root` by following `path`.
pub open spec fn system_at(root: SpaceSystemView, path: Seq<usize>) -> Option<SpaceSystemView>
    decreases path.len(),
{
    if path.len() == 0 {
        Some(root)
    } else if path[0] < root.space_system.len() {
        system_at(root.space_system[path[0] as int], path.drop_first())
    } else {
        None
    }
}

/// `root` with the space system at `path` replaced by `s`.
pub open spec fn replace_system(
    root: SpaceSystemView,
    path: Seq<usize>,
    s: SpaceSystemView,
) -> SpaceSystemView
    decreases path.len(),
{
    if path.len() == 0 {
        s
    } else if path[0] < root.space_system.len() {
        SpaceSystemView {
            space_system: root.space_system.update(
                path[0] as int,
                replace_system(root.space_system[path[0] as int], path.drop_first(), s),
            ),
            ..root
        }
    } else {
        root
    }
}

/// What duplicating the element `kind` of the space system `s` makes of
/// it: the new space system and the kind that selects the copy, or `None`
/// when the kind is no collection entry of `s`.
pub open spec fn duplicated(s: SpaceSystemView, kind: ElementKind) -> Option<(SpaceSystemView, ElementKind)> {
    match kind_target(kind) {
        Some((c, index)) => match collection(s, c) {
            Some(items) => if index < items.len() {
                Some(
                    (
                        with_collection(s, c, items.push(copy_of(items, index as int))),
                        kind_at(c, items.len() as usize, items[index as int].variant),
                    ),
                )
            } else {
                None
            },
            None => None,
        },
        None => None,
    }
}

/// Duplicates entry `index` of one set of an optional metadata block.
fn duplicate_in_meta(m: &mut Option<MetaData>, f: MetaSet, index: usize) -> (r: Option<usize>)
    ensures
        ({
            match opt_meta_view(*old(m)) {
                Some(mv) => match meta_set(mv, f) {
                    Some(items) => if index < items.len() {
                        (r matches Some(n) && n == items.len()) && opt_meta_view(*final(m)) == Some(
                            meta_with_set(mv, f, items.push(copy_of(items, index as int))),
                        )
                    } else {
                        r is None && *final(m) == *old(m)
                    },
                    None => r is None && *final(m) == *old(m),
                },
                None => r is None && *final(m) == *old(m),
            }
        }),
{
    match m {
        Some(md) => {
            let set = match f {
                MetaSet::ParameterTypes => &mut md.parameter_type_set,
                MetaSet::Parameters => &mut md.parameter_set,
                MetaSet::Containers => &mut md.container_set,
                MetaSet::Messages => &mut md.message_set,
                MetaSet::Streams => &mut md.stream_set,
                MetaSet::Algorithms => &mut md.algorithm_set,
                MetaSet::ArgumentTypes => &mut md.argument_type_set,
                MetaSet::MetaCommands => &mut md.meta_command_set,
                MetaSet::CommandContainers => &mut md.command_container_set,
            };
            duplicate_in_set(set, index)
        },
        None => None,
    }
}

/// Duplicates entry `index` of an optional set.
fn duplicate_in_set(set: &mut Option<Vec<Entry>>, index: usize) -> (r: Option<usize>)
    ensures
        ({
            match opt_entries_view(*old(set)) {
                Some(items) => if index < items.len() {
                    (r matches Some(n) && n == items.len()) && opt_entries_view(*final(set)) == Some(
                        items.push(copy_of(items, index as int)),
                    )
                } else {
                    r is None && *final(set) == *old(set)
                },
                None => r is None && *final(set) == *old(set),
            }
        }),
{
    match set {
        Some(items) => duplicate_item(items, index),
        None => None,
    }
}


/// Executable form of [`kind_target`].
pub fn target_of_kind(kind: ElementKind) -> (r: Option<(Collection, usize)>)
    ensures
        r == kind_target(kind),
{
    match kind {
        ElementKind::TelemetryParameterType(i) => Some(
            (Collection::Telemetry(MetaSet::ParameterTypes), i),
        ),
        ElementKind::CommandParameterType(i) => Some(
            (Collection::Command(MetaSet::ParameterTypes), i),
        ),
        ElementKind::TelemetryParameter(i) => Some((Collection::Telemetry(MetaSet::Parameters), i)),
        ElementKind::CommandParameter(i) => Some((Collection::Command(MetaSet::Parameters), i)),
        ElementKind::SequenceContainer(i) => Some((Collection::Telemetry(MetaSet::Containers), i)),
        ElementKind::Message(i) => Some((Collection::Telemetry(MetaSet::Messages), i)),
        ElementKind::ArgumentType(i) => Some((Collection::Command(MetaSet::ArgumentTypes), i)),
        ElementKind::MetaCommand(i) => Some((Collection::Command(MetaSet::MetaCommands), i)),
        ElementKind::CommandContainer(i) => Some(
            (Collection::Command(MetaSet::CommandContainers), i),
        ),
        ElementKind::Service(i) => Some((Collection::Services, i)),
        ElementKind::TelemetryFixedFrameStream(i) => Some(
            (Collection::Telemetry(MetaSet::Streams), i),
        ),
        ElementKind::TelemetryVariableFrameStream(i) => Some(
            (Collection::Telemetry(MetaSet::Streams), i),
        ),
        ElementKind::TelemetryCustomStream(i) => Some((Collection::Telemetry(MetaSet::Streams), i)),
        ElementKind::CommandFixedFrameStream(i) => Some((Collection::Command(MetaSet::Streams), i)),
        ElementKind::CommandVariableFrameStream(i) => Some(
            (Collection::Command(MetaSet::Streams), i),
        ),
        ElementKind::CommandCustomStream(i) => Some((Collection::Command(MetaSet::Streams), i)),
        ElementKind::TelemetryCustomAlgorithm(i) => Some(
            (Collection::Telemetry(MetaSet::Algorithms), i),
        ),
        ElementKind::TelemetryMathAlgorithm(i) => Some(
            (Collection::Telemetry(MetaSet::Algorithms), i),
        ),
        ElementKind::CommandCustomAlgorithm(i) => Some(
            (Collection::Command(MetaSet::Algorithms), i),
        ),
        ElementKind::CommandMathAlgorithm(i) => Some((Collection::Command(MetaSet::Algorithms), i)),
        _ => None,
    }
}

/// Executable form of [`kind_at`].
pub fn kind_of_entry(c: Collection, index: usize, v: EntryVariant) -> (r: ElementKind)
    ensures
        r == kind_at(c, index, v),
{
    match c {
        Collection::Telemetry(MetaSet::ParameterTypes) => ElementKind::TelemetryParameterType(index),
        Collection::Command(MetaSet::ParameterTypes) => ElementKind::CommandParameterType(index),
        Collection::Telemetry(MetaSet::Parameters) => ElementKind::TelemetryParameter(index),
        Collection::Command(MetaSet::Parameters) => ElementKind::CommandParameter(index),
        Collection::Telemetry(MetaSet::Containers) => ElementKind::SequenceContainer(index),
        Collection::Telemetry(MetaSet::Messages) => ElementKind::Message(index),
        Collection::Command(MetaSet::ArgumentTypes) => ElementKind::ArgumentType(index),
        Collection::Command(MetaSet::MetaCommands) => ElementKind::MetaCommand(index),
        Collection::Command(MetaSet::CommandContainers) => ElementKind::CommandContainer(index),
        Collection::Services => ElementKind::Service(index),
        Collection::Telemetry(MetaSet::Streams) => if v == EntryVariant::FixedFrameStream {
            ElementKind::TelemetryFixedFrameStream(index)
        } else if v == EntryVariant::VariableFrameStream {
            ElementKind::TelemetryVariableFrameStream(index)
        } else {
            ElementKind::TelemetryCustomStream(index)
        },
        Collection::Command(MetaSet::Streams) => if v == EntryVariant::FixedFrameStream {
            ElementKind::CommandFixedFrameStream(index)
        } else if v == EntryVariant::VariableFrameStream {
            ElementKind::CommandVariableFrameStream(index)
        } else {
            ElementKind::CommandCustomStream(index)
        },
        Collection::Telemetry(MetaSet::Algorithms) => if v == EntryVariant::CustomAlgorithm {
            ElementKind::TelemetryCustomAlgorithm(index)
        } else {
            ElementKind::TelemetryMathAlgorithm(index)
        },
        Collection::Command(MetaSet::Algorithms) => if v == EntryVariant::CustomAlgorithm {
            ElementKind::CommandCustomAlgorithm(index)
        } else {
            ElementKind::CommandMathAlgorithm(index)
        },
        _ => ElementKind::SpaceSystem,
    }
}

/// The variant of entry `index` of a present collection.
fn variant_in(s: &SpaceSystem, c: Collection, index: usize) -> (r: EntryVariant)
    requires
        collection(s@, c) matches Some(items) && index < items.len(),
    ensures
        r == collection(s@, c)->Some_0[index as int].variant,
{
    let set = match c {
        Collection::Telemetry(f) => meta_set_ref(s.telemetry_meta_data.as_ref().unwrap(), f),
        Collection::Command(f) => meta_set_ref(s.command_meta_data.as_ref().unwrap(), f),
        Collection::Services => &s.service_set,
    };
    set.as_ref().unwrap()[index].variant
}

/// One set of a metadata block.
fn meta_set_ref(m: &MetaData, f: MetaSet) -> (r: &Option<Vec<Entry>>)
    ensures
        opt_entries_view(*r) == meta_set(m@, f),
{
    match f {
        MetaSet::ParameterTypes => &m.parameter_type_set,
        MetaSet::Parameters => &m.parameter_set,
        MetaSet::Containers => &m.container_set,
        MetaSet::Messages => &m.message_set,
        MetaSet::Streams => &m.stream_set,
        MetaSet::Algorithms => &m.algorithm_set,
        MetaSet::ArgumentTypes => &m.argument_type_set,
        MetaSet::MetaCommands => &m.meta_command_set,
        MetaSet::CommandContainers => &m.command_container_set,
    }
}

/// Duplicates entry `index` of collection `c` of a space system.
fn duplicate_in_collection(s: &mut SpaceSystem, c: Collection, index: usize) -> (r: Option<usize>)
    ensures
        match collection(old(s)@, c) {
            Some(items) => if index < items.len() {
                (r matches Some(n) && n == items.len()) && final(s)@ == with_collection(
                    old(s)@,
                    c,
                    items.push(copy_of(items, index as int)),
                )
            } else {
                r is None && *final(s) == *old(s)
            },
            None => r is None && *final(s) == *old(s),
        },
{
    match c {
        Collection::Telemetry(f) => duplicate_in_meta(&mut s.telemetry_meta_data, f, index),
        Collection::Command(f) => duplicate_in_meta(&mut s.command_meta_data, f, index),
        Collection::Services => duplicate_in_set(&mut s.service_set, index),
    }
}

/// Duplicates the element `kind` of one space system (not of the systems
/// nested in it) and returns the kind that selects the copy.
pub fn duplicate_in_system(s: &mut SpaceSystem, kind: ElementKind) -> (r: Option<ElementKind>)
    ensures
        match duplicated(old(s)@, kind) {
            Some((s2, k)) => r == Some(k) && final(s)@ == s2,
            None => r is None && *final(s) == *old(s),
        },
{
    let (c, index) = match target_of_kind(kind) {
        Some(t) => t,
        None => return None,
    };
    let ghost before = s@;
    match duplicate_in_collection(s, c, index) {
        Some(new_index) => {
            assert(collection(before, c) is Some);
            let ghost items = collection(before, c)->Some_0;
            assert(index < items.len());
            assert(new_index as int == items.len());
            assert(items.push(copy_of(items, index as int))[new_index as int] == copy_of(
                items,
                index as int,
            ));
            let v = variant_in(s, c, new_index);
            Some(kind_of_entry(c, new_index, v))
        },
        None => None,
    }
}


proof fn lemma_systems_view_update(v: Seq<SpaceSystem>, i: int, x: SpaceSystem)
    requires
        0 <= i < v.len(),
    ensures
        systems_view(v.update(i, x)) == systems_view(v).update(i, system_view(x)),
{
    lemma_systems_view(v);
    lemma_systems_view(v.update(i, x));
    assert(systems_view(v.update(i, x)) =~= systems_view(v).update(i, system_view(x)));
}

/// Duplicates the element `kind` of the space system reached by following
/// `path[depth..]` from `s`.
fn duplicate_at(s: &mut SpaceSystem, path: &Vec<usize>, depth: usize, kind: ElementKind) -> (r:
    Option<ElementKind>)
    requires
        depth <= path@.len(),
    ensures
        match system_at(old(s)@, path@.skip(depth as int)) {
            Some(t) => match duplicated(t, kind) {
                Some((t2, k)) => r == Some(k) && final(s)@ == replace_system(
                    old(s)@,
                    path@.skip(depth as int),
                    t2,
                ),
                None => r is None && final(s)@ == old(s)@,
            },
            None => r is None && final(s)@ == old(s)@,
        },
    decreases path@.len() - depth,
{
    let ghost rest = path@.skip(depth as int);
    if depth == path.len() {
        assert(rest.len() == 0);
        return duplicate_in_system(s, kind);
    }
    let i = path[depth];
    assert(rest[0] == i);
    assert(rest.drop_first() =~= path@.skip(depth + 1));
    proof {
        lemma_systems_view(s.space_system@);
    }
    if i >= s.space_system.len() {
        return None;
    }
    let ghost old_children = s.space_system@;
    let ghost old_view = s@;
    let r = duplicate_at(&mut s.space_system[i], path, depth + 1, kind);
    proof {
        lemma_systems_view_update(old_children, i as int, s.space_system@[i as int]);
        assert(s.space_system@ == old_children.update(i as int, s.space_system@[i as int]));
        let t = system_at(old_view, rest);
        if t is Some && duplicated(t->Some_0, kind) is Some {
            assert(s@ =~= replace_system(old_view, rest, duplicated(t->Some_0, kind)->Some_0.0));
        } else {
            assert(old_view.space_system.update(i as int, old_view.space_system[i as int])
                =~= old_view.space_system);
            assert(s@ =~= old_view);
        }
    }
    r
}

/// Duplicates the selected element: the copy is appended to the same
/// collection (named entries get a fresh name, references keep their
/// target) and the kind that selects the copy is returned. A selection that
/// leads nowhere, or names no entry of a collection, changes nothing and
/// gives `None`.
pub fn duplicate_element(root: &mut SpaceSystem, selection: &ElementSelection) -> (r: Option<
    ElementKind,
>)
    ensures
        match system_at(old(root)@, selection.system_path@) {
            Some(t) => match duplicated(t, selection.kind) {
                Some((t2, k)) => r == Some(k) && final(root)@ == replace_system(
                    old(root)@,
                    selection.system_path@,
                    t2,
                ),
                None => r is None && final(root)@ == old(root)@,
            },
            None => r is None && final(root)@ == old(root)@,
        },
{
    assert(selection.system_path@.skip(0) =~= selection.system_path@);
    duplicate_at(root, &selection.system_path, 0, selection.kind)
}

/// Entry `index` of a collection of a space system, when the collection
/// is present and holds it.
pub open spec fn entry_at(s: SpaceSystemView, c: Collection, index: usize) -> Option<EntryView> {
    match collection(s, c) {
        Some(items) => if index < items.len() {
            Some(items[index as int])
        } else {
            None
        },
        None => None,
    }
}

/// Entry `index` of a collection of a space system (see [`entry_at`]).
pub fn collection_entry(s: &SpaceSystem, c: Collection, index: usize) -> (r: Option<&Entry>)
    ensures
        match r {
            Some(e) => Some(e@),
            None => None,
        } == entry_at(s@, c, index),
{
    let set = match c {
        Collection::Telemetry(f) => match &s.telemetry_meta_data {
            Some(m) => meta_set_ref(m, f),
            None => return None,
        },
        Collection::Command(f) => match &s.command_meta_data {
            Some(m) => meta_set_ref(m, f),
            None => return None,
        },
        Collection::Services => &s.service_set,
    };
    match set {
        Some(items) => if index < items.len() {
            Some(&items[index])
        } else {
            None
        },
        None => None,
    }
}

/// The title of a parameter entry: its name, or an arrow and the name of
/// the parameter a reference refers to.
pub open spec fn parameter_title_of(e: EntryView) -> Seq<char> {
    if e.variant == EntryVariant::ParameterRef {
        seq!['→', ' '] + e.name
    } else {
        e.name
    }
}

/// The title of a parameter entry (see [`parameter_title_of`]).
pub fn parameter_title(e: &Entry) -> (r: String)
    ensures
        r@ == parameter_title_of(e@),
{
    if e.variant == EntryVariant::ParameterRef {
        let mut t = vec!['→', ' '];
        let mut name = crate::text::chars_of(e.name.as_str());
        t.append(&mut name);
        assert(t@ =~= seq!['→', ' '] + e@.name);
        crate::text::string_of(&t)
    } else {
        e.name.clone()
    }
}

/// Whether the element's title is the name being edited in its form:
/// for the space system, a parameter that is not a reference, and every
/// element of a set but a parameter; not for the sets themselves.
pub open spec fn has_draft_name(kind: ElementKind, s: SpaceSystemView) -> bool {
    match kind {
        ElementKind::SpaceSystem => true,
        ElementKind::TelemetryParameter(i) => entry_at(s, Collection::Telemetry(MetaSet::Parameters), i)
            matches Some(e) && e.variant == EntryVariant::Parameter,
        ElementKind::CommandParameter(i) => entry_at(s, Collection::Command(MetaSet::Parameters), i)
            matches Some(e) && e.variant == EntryVariant::Parameter,
        _ => kind_target(kind) is Some,
    }
}

/// Whether the element's title is the name being edited in its form (see
/// [`has_draft_name`]).
pub fn draft_name_applies(kind: ElementKind, s: &SpaceSystem) -> (r: bool)
    ensures
        r == has_draft_name(kind, s@),
{
    match kind {
        ElementKind::SpaceSystem => true,
        ElementKind::TelemetryParameter(i) => match collection_entry(
            s,
            Collection::Telemetry(MetaSet::Parameters),
            i,
        ) {
            Some(e) => e.variant == EntryVariant::Parameter,
            None => false,
        },
        ElementKind::CommandParameter(i) => match collection_entry(
            s,
            Collection::Command(MetaSet::Parameters),
            i,
        ) {
            Some(e) => e.variant == EntryVariant::Parameter,
            None => false,
        },
        _ => target_of_kind(kind).is_some(),
    }
}

/// The title of an element in the tree: the name being edited when it
/// has one (see [`has_draft_name`]); else, for a parameter entry that is
/// there, its title (see [`parameter_title_of`]); else the kind's label.
pub open spec fn element_title_of(
    kind: ElementKind,
    s: SpaceSystemView,
    draft: Seq<char>,
    label: Seq<char>,
) -> Seq<char> {
    if has_draft_name(kind, s) {
        draft
    } else {
        let entry = match kind {
            ElementKind::TelemetryParameter(i) => entry_at(s, Collection::Telemetry(MetaSet::Parameters), i),
            ElementKind::CommandParameter(i) => entry_at(s, Collection::Command(MetaSet::Parameters), i),
            _ => None,
        };
        match entry {
            Some(e) => parameter_title_of(e),
            None => label,
        }
    }
}

/// The title of an element in the tree (see [`element_title_of`]); the
/// form gives the name being edited and the kind its label.
pub fn element_title(kind: ElementKind, s: &SpaceSystem, draft: String, label: String) -> (r: String)
    ensures
        r@ == element_title_of(kind, s@, draft@, label@),
{
    if draft_name_applies(kind, s) {
        return draft;
    }
    let entry = match kind {
        ElementKind::TelemetryParameter(i) => collection_entry(
            s,
            Collection::Telemetry(MetaSet::Parameters),
            i,
        ),
        ElementKind::CommandParameter(i) => collection_entry(s, Collection::Command(MetaSet::Parameters), i),
        _ => None,
    };
    match entry {
        Some(e) => parameter_title(e),
        None => label,
    }
}

/// Replaces entry `index` of an optional set with `item`.
fn replace_in_set(set: &mut Option<Vec<Entry>>, index: usize, item: Entry) -> (r: bool)
    ensures
        match opt_entries_view(*old(set)) {
            Some(items) => if index < items.len() {
                r && opt_entries_view(*final(set)) == Some(items.update(index as int, item@))
            } else {
                !r && *final(set) == *old(set)
            },
            None => !r && *final(set) == *old(set),
        },
{
    match set {
        Some(items) => {
            if index < items.len() {
                let ghost before = crate::model::entries_view(items@);
                items.set(index, item);
                assert(crate::model::entries_view(items@) =~= before.update(index as int, item@));
                true
            } else {
                false
            }
        },
        None => false,
    }
}

/// Replaces entry `index` of one set of an optional metadata block.
fn replace_in_meta(m: &mut Option<MetaData>, f: MetaSet, index: usize, item: Entry) -> (r: bool)
    ensures
        match opt_meta_view(*old(m)) {
            Some(mv) => match meta_set(mv, f) {
                Some(items) => if index < items.len() {
                    r && opt_meta_view(*final(m)) == Some(
                        meta_with_set(mv, f, items.update(index as int, item@)),
                    )
                } else {
                    !r && *final(m) == *old(m)
                },
                None => !r && *final(m) == *old(m),
            },
            None => !r && *final(m) == *old(m),
        },
{
    match m {
        Some(md) => {
            let set = match f {
                MetaSet::ParameterTypes => &mut md.parameter_type_set,
                MetaSet::Parameters => &mut md.parameter_set,
                MetaSet::Containers => &mut md.container_set,
                MetaSet::Messages => &mut md.message_set,
                MetaSet::Streams => &mut md.stream_set,
                MetaSet::Algorithms => &mut md.algorithm_set,
                MetaSet::ArgumentTypes => &mut md.argument_type_set,
                MetaSet::MetaCommands => &mut md.meta_command_set,
                MetaSet::CommandContainers => &mut md.command_container_set,
            };
            replace_in_set(set, index, item)
        },
        None => false,
    }
}

/// Applies an edited element to the space system: the entry the kind
/// selects is replaced by `item`, and the result says whether it was
/// there. An element whose set or entry is missing, or a kind that
/// selects no entry, leaves the system unchanged.
pub fn apply_element(system: &mut SpaceSystem, kind: ElementKind, item: Entry) -> (r: bool)
    ensures
        match kind_target(kind) {
            Some((c, i)) => match collection(old(system)@, c) {
                Some(s) => if i < s.len() {
                    r && final(system)@ == with_collection(old(system)@, c, s.update(i as int, item@))
                } else {
                    !r && final(system)@ == old(system)@
                },
                None => !r && final(system)@ == old(system)@,
            },
            None => !r && final(system)@ == old(system)@,
        },
{
    let (c, index) = match target_of_kind(kind) {
        Some(t) => t,
        None => return false,
    };
    match c {
        Collection::Telemetry(f) => replace_in_meta(&mut system.telemetry_meta_data, f, index, item),
        Collection::Command(f) => replace_in_meta(&mut system.command_meta_data, f, index, item),
        Collection::Services => replace_in_set(&mut system.service_set, index, item),
    }
}

/// The space system after the sub-forms of its own element are applied:
/// the alias and ancillary data sets their rows give (none when no row
/// gives an entry) and the header of the header form, created when there
/// was none; the rest stays.
pub open spec fn applied_space_system(
    s: SpaceSystemView,
    alias_rows: Seq<Alias<String>>,
    ancillary_rows: Seq<AncillaryRow>,
    header: HeaderValuesView,
) -> SpaceSystemView {
    SpaceSystemView {
        alias_set: alias_set_of(alias_rows),
        ancillary_data_set: ancillary_set_of(ancillary_rows),
        header: Some(header_of_values(header)),
        ..s
    }
}

/// Applies the alias set, ancillary data set and header sub-forms of the
/// space system element (see [`applied_space_system`]).
pub fn apply_space_system(
    system: &mut SpaceSystem,
    alias_rows: &Vec<Alias<String>>,
    ancillary_rows: &Vec<AncillaryRow>,
    header: &HeaderValues,
)
    ensures
        final(system)@ == applied_space_system(old(system)@, alias_rows@, ancillary_rows@, header@),
{
    system.alias_set = crate::alias::value(alias_rows);
    system.ancillary_data_set = crate::ancillary::value(ancillary_rows);
    crate::header::apply_to_option(header, &mut system.header);
}

/// The space system with the message set of its telemetry metadata
/// replaced, when it has telemetry metadata.
pub open spec fn applied_message_set(s: SpaceSystemView, set: Option<Seq<EntryView>>) -> Option<
    SpaceSystemView,
> {
    match s.telemetry_meta_data {
        Some(m) => Some(
            SpaceSystemView {
                telemetry_meta_data: Some(MetaDataView { message_set: set, ..m }),
                ..s
            },
        ),
        None => None,
    }
}

/// Applies the message set form to the telemetry metadata (see
/// [`applied_message_set`]); a space system without telemetry metadata
/// stays as it is, and the result says whether the set was applied.
pub fn apply_message_set(system: &mut SpaceSystem, set: Option<Vec<Entry>>) -> (r: bool)
    ensures
        match applied_message_set(old(system)@, opt_entries_view(set)) {
            Some(s2) => r && final(system)@ == s2,
            None => !r && final(system)@ == old(system)@,
        },
{
    match &mut system.telemetry_meta_data {
        Some(m) => {
            m.message_set = set;
            true
        },
        None => false,
    }
}

/// What the form of a selected element gives: the sub-forms of the space
/// system element, the message set, or one edited entry of a set.
#[derive(Debug)]
pub enum ElementEdit {
    SpaceSystem {
        alias_rows: Vec<Alias<String>>,
        ancillary_rows: Vec<AncillaryRow>,
        header: HeaderValues,
    },
    MessageSet(Option<Vec<Entry>>),
    Item(Entry),
}

/// The space system with entry `i` of collection `c` replaced, when it
/// is there.
pub open spec fn applied_item(s: SpaceSystemView, kind: ElementKind, item: EntryView) -> Option<
    SpaceSystemView,
> {
    match kind_target(kind) {
        Some((c, i)) => match collection(s, c) {
            Some(items) => if i < items.len() {
                Some(with_collection(s, c, items.update(i as int, item)))
            } else {
                None
            },
            None => None,
        },
        None => None,
    }
}

/// The space system after the form of the selected element is applied,
/// or none when the form changes nothing: the space system element takes
/// its sub-forms, the message set element its set when there is telemetry
/// metadata, and an element of a set its edited entry when the entry is
/// there. Any other element, an entry that is not there, or an edit of
/// another element's form changes nothing.
pub open spec fn applied_form(s: SpaceSystemView, kind: ElementKind, edit: ElementEdit) -> Option<
    SpaceSystemView,
> {
    match edit {
        ElementEdit::SpaceSystem { alias_rows, ancillary_rows, header } => if kind
            == ElementKind::SpaceSystem {
            Some(applied_space_system(s, alias_rows@, ancillary_rows@, header@))
        } else {
            None
        },
        ElementEdit::MessageSet(set) => if kind == ElementKind::MessageSet {
            applied_message_set(s, opt_entries_view(set))
        } else {
            None
        },
        ElementEdit::Item(e) => applied_item(s, kind, e@),
    }
}

/// Applies the form of the selected element to the space system (see
/// [`applied_form`]); the result says whether anything was applied.
pub fn apply_form(system: &mut SpaceSystem, kind: ElementKind, edit: ElementEdit) -> (r: bool)
    ensures
        match applied_form(old(system)@, kind, edit) {
            Some(s2) => r && final(system)@ == s2,
            None => !r && final(system)@ == old(system)@,
        },
{
    match edit {
        ElementEdit::SpaceSystem { alias_rows, ancillary_rows, header } => {
            if kind == ElementKind::SpaceSystem {
                apply_space_system(system, &alias_rows, &ancillary_rows, &header);
                true
            } else {
                false
            }
        },
        ElementEdit::MessageSet(set) => {
            if kind == ElementKind::MessageSet {
                apply_message_set(system, set)
            } else {
                false
            }
        },
        ElementEdit::Item(e) => apply_element(system, kind, e),
    }
}

/// Applying the form of an element that is neither the space system nor
/// the message set changes nothing when the element selects no entry, or
/// when the entry it selects is not there.
pub proof fn lemma_missing_element_unchanged(s: SpaceSystemView, kind: ElementKind, edit: ElementEdit)
    requires
        kind != ElementKind::SpaceSystem,
        kind != ElementKind::MessageSet,
        match kind_target(kind) {
            Some((c, i)) => match collection(s, c) {
                Some(items) => i >= items.len(),
                None => true,
            },
            None => true,
        },
    ensures
        applied_form(s, kind, edit) is None,
{
}

/// Whether an element kind is an entry of the telemetry metadata.
pub open spec fn in_telemetry(k: ElementKind) -> bool {
    ||| k is TelemetryParameterType
    ||| k is TelemetryParameter
    ||| k is SequenceContainer
    ||| k is Message
    ||| k is TelemetryFixedFrameStream
    ||| k is TelemetryVariableFrameStream
    ||| k is TelemetryCustomStream
    ||| k is TelemetryCustomAlgorithm
    ||| k is TelemetryMathAlgorithm
}

/// Whether an element kind is an entry of the command metadata.
pub open spec fn in_command(k: ElementKind) -> bool {
    ||| k is CommandParameterType
    ||| k is CommandParameter
    ||| k is ArgumentType
    ||| k is MetaCommand
    ||| k is CommandContainer
    ||| k is CommandFixedFrameStream
    ||| k is CommandVariableFrameStream
    ||| k is CommandCustomStream
    ||| k is CommandCustomAlgorithm
    ||| k is CommandMathAlgorithm
}

/// Every telemetry element addresses a set of the telemetry metadata,
/// every command element one of the command metadata, a service the
/// service set; the other kinds address no entry.
pub proof fn lemma_kind_sides(k: ElementKind)
    ensures
        in_telemetry(k) ==> kind_target(k) matches Some((Collection::Telemetry(_), _)),
        in_command(k) ==> kind_target(k) matches Some((Collection::Command(_), _)),
        k is Service ==> kind_target(k) matches Some((Collection::Services, _)),
        !in_telemetry(k) && !in_command(k) && !(k is Service) ==> kind_target(k) is None,
{
}

/// The kind that selects an entry of a collection addresses that entry of
/// that collection again.
pub proof fn lemma_kind_at_target(c: Collection, index: usize, v: EntryVariant)
    requires
        kind_at(c, index, v) != ElementKind::SpaceSystem,
    ensures
        kind_target(kind_at(c, index, v)) == Some((c, index)),
{
}

/// Duplicating an element changes only the collection it is in and
/// selects the copy there: a telemetry element's copy is a telemetry
/// element and the command metadata stays, a command element's copy is
/// a command element and the telemetry metadata stays, and the copy is
/// the last entry of the element's own collection.
pub proof fn lemma_duplicate_stays_in_collection(s: SpaceSystemView, kind: ElementKind)
    requires
        duplicated(s, kind) is Some,
    ensures
        ({
            let (s2, k) = duplicated(s, kind)->Some_0;
            let (c, _) = kind_target(kind)->Some_0;
            &&& kind_target(k) == Some((c, collection(s, c)->Some_0.len() as usize))
            &&& s2.name == s.name
            &&& s2.space_system == s.space_system
            &&& (in_telemetry(kind) ==> in_telemetry(k) && s2.command_meta_data == s.command_meta_data
                && s2.service_set == s.service_set)
            &&& (in_command(kind) ==> in_command(k) && s2.telemetry_meta_data == s.telemetry_meta_data
                && s2.service_set == s.service_set)
            &&& (kind is Service ==> k is Service && s2.telemetry_meta_data == s.telemetry_meta_data
                && s2.command_meta_data == s.command_meta_data)
        }),
{
    let (c, index) = kind_target(kind)->Some_0;
    let items = collection(s, c)->Some_0;
    lemma_kind_sides(kind);
    let k = kind_at(c, items.len() as usize, items[index as int].variant);
    assert(k != ElementKind::SpaceSystem);
    lemma_kind_at_target(c, items.len() as usize, items[index as int].variant);
}

} // verus!
