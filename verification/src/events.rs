//! What the framing of a binary yields, event by event, and the records that
//! a list of events stands for.

use crate::kinds::{export_kind_of, import_kind_of, ExternKind, WasmExportKind, WasmImportKind};
use crate::records::{
    payloads_view, PayloadRecord, WasmPayload, WasmPayloadExport, WasmPayloadImport,
    WasmPayloadVersion,
};
use vstd::prelude::*;

verus! {

/// The two top-level encodings a header can announce.
#[derive(Debug, Clone, Copy, PartialEq, Eq, Structural)]
pub enum ModuleEncoding {
    Module,
    Component,
}

/// An import entry as the section holds it.
#[derive(Debug, Clone, PartialEq, Eq)]
pub struct ImportEntry {
    pub module: String,
    pub name: String,
    pub kind: ExternKind,
}

/// An export entry as the section holds it.
#[derive(Debug, Clone, PartialEq, Eq)]
pub struct ExportEntry {
    pub name: String,
    pub kind: ExternKind,
    pub index: u32,
}

/// The model of an import entry.
pub struct ImportEntryView {
    pub module: Seq<char>,
    pub name: Seq<char>,
    pub kind: ExternKind,
}

/// The model of an export entry.
pub struct ExportEntryView {
    pub name: Seq<char>,
    pub kind: ExternKind,
    pub index: u32,
}

impl ImportEntry {
    /// An import entry with the given module, name and kind.
    pub fn new(module: &str, name: &str, kind: ExternKind) -> (entry: Self)
        ensures
            entry@ == (ImportEntryView { module: module@, name: name@, kind }),
    {
        ImportEntry { module: module.to_owned(), name: name.to_owned(), kind }
    }
}

impl ExportEntry {
    /// An export entry with the given name, index and kind.
    pub fn new(name: &str, index: u32, kind: ExternKind) -> (entry: Self)
        ensures
            entry@ == (ExportEntryView { name: name@, kind, index }),
    {
        ExportEntry { name: name.to_owned(), kind, index }
    }
}

impl View for ImportEntry {
    type V = ImportEntryView;

    open spec fn view(&self) -> ImportEntryView {
        ImportEntryView { module: self.module@, name: self.name@, kind: self.kind }
    }
}

impl View for ExportEntry {
    type V = ExportEntryView;

    open spec fn view(&self) -> ExportEntryView {
        ExportEntryView { name: self.name@, kind: self.kind, index: self.index }
    }
}

/// The items of an import section in order; `None` stands for an item that
/// did not parse.
pub open spec fn import_items_view(items: Seq<Option<ImportEntry>>) -> Seq<
    Option<ImportEntryView>,
> {
    items.map_values(
        |item: Option<ImportEntry>|
            match item {
                Some(entry) => Some(entry@),
                None => None,
            },
    )
}

/// The items of an export section in order; `None` stands for an item that
/// did not parse.
pub open spec fn export_items_view(items: Seq<Option<ExportEntry>>) -> Seq<
    Option<ExportEntryView>,
> {
    items.map_values(
        |item: Option<ExportEntry>|
            match item {
                Some(entry) => Some(entry@),
                None => None,
            },
    )
}

/// Whether a list of items ends at its first item that did not parse, so
/// that only its last item can be `None`.
pub open spec fn ends_at_failure<T>(items: Seq<Option<T>>) -> bool {
    forall|i: int| 0 <= i < items.len() - 1 ==> (#[trigger] items[i]) is Some
}

/// One event of the top level of a binary.
#[derive(Debug, Clone, PartialEq, Eq)]
pub enum ModuleEvent {
    /// The header.
    Version { num: u16, encoding: ModuleEncoding },
    /// An import section with its items.
    ImportSection(Vec<Option<ImportEntry>>),
    /// An export section with its items.
    ExportSection(Vec<Option<ExportEntry>>),
    /// Any other section.
    Other,
    /// The framing broke here.
    Malformed,
}

/// The model of an event.
pub enum ModuleEventView {
    Version { num: u16, encoding: ModuleEncoding },
    ImportSection(Seq<Option<ImportEntryView>>),
    ExportSection(Seq<Option<ExportEntryView>>),
    Other,
    Malformed,
}

impl View for ModuleEvent {
    type V = ModuleEventView;

    open spec fn view(&self) -> ModuleEventView {
        match *self {
            ModuleEvent::Version { num, encoding } => ModuleEventView::Version { num, encoding },
            ModuleEvent::ImportSection(items) => ModuleEventView::ImportSection(
                import_items_view(items@),
            ),
            ModuleEvent::ExportSection(items) => ModuleEventView::ExportSection(
                export_items_view(items@),
            ),
            ModuleEvent::Other => ModuleEventView::Other,
            ModuleEvent::Malformed => ModuleEventView::Malformed,
        }
    }
}

/// Whether the items of an event, where it is a section, end at their first
/// item that did not parse.
pub open spec fn section_ends_at_failure(event: ModuleEventView) -> bool {
    match event {
        ModuleEventView::ImportSection(items) => ends_at_failure(items),
        ModuleEventView::ExportSection(items) => ends_at_failure(items),
        _ => true,
    }
}

/// The models of a list of events, in order.
pub open spec fn events_view(events: Seq<ModuleEvent>) -> Seq<ModuleEventView> {
    events.map_values(|e: ModuleEvent| e@)
}

/// The record of a header.
pub open spec fn version_record(num: u16, encoding: ModuleEncoding) -> PayloadRecord {
    PayloadRecord::Version { num, is_module: encoding == ModuleEncoding::Module }
}

/// The record of an import entry.
pub open spec fn import_record(entry: ImportEntryView) -> PayloadRecord {
    PayloadRecord::Import {
        module: entry.module,
        name: entry.name,
        kind: import_kind_of(entry.kind),
    }
}

/// The record of an export entry: name and index as they stand.
pub open spec fn export_record(entry: ExportEntryView) -> PayloadRecord {
    PayloadRecord::Export {
        name: entry.name,
        kind: export_kind_of(entry.kind),
        index: entry.index,
    }
}

/// The records of an import section: one for each item that parsed, in the
/// order of the items; an item that did not parse leaves nothing.
pub open spec fn import_records(items: Seq<Option<ImportEntryView>>) -> Seq<PayloadRecord> {
    items.filter_map(
        |item: Option<ImportEntryView>|
            match item {
                Some(entry) => Some(import_record(entry)),
                None => None,
            },
    )
}

/// The records of an export section: one for each item that parsed, in the
/// order of the items; an item that did not parse leaves nothing.
pub open spec fn export_records(items: Seq<Option<ExportEntryView>>) -> Seq<PayloadRecord> {
    items.filter_map(
        |item: Option<ExportEntryView>|
            match item {
                Some(entry) => Some(export_record(entry)),
                None => None,
            },
    )
}

/// The records that one event leaves.
pub open spec fn event_records(event: ModuleEventView) -> Seq<PayloadRecord> {
    match event {
        ModuleEventView::Version { num, encoding } => seq![version_record(num, encoding)],
        ModuleEventView::ImportSection(items) => import_records(items),
        ModuleEventView::ExportSection(items) => export_records(items),
        ModuleEventView::Other => Seq::empty(),
        ModuleEventView::Malformed => Seq::empty(),
    }
}

/// Whether the framing broke anywhere in the list.
pub open spec fn has_malformed(events: Seq<ModuleEventView>) -> bool {
    exists|i: int| 0 <= i < events.len() && #[trigger] events[i] is Malformed
}

/// The records of every event, one event after the other.
pub open spec fn all_event_records(events: Seq<ModuleEventView>) -> Seq<PayloadRecord> {
    events.map_values(|e: ModuleEventView| event_records(e)).flatten()
}

/// The outcome of a scan over a list of events: `None` where the framing
/// broke, else the records of all events in order.
pub open spec fn scan_records(events: Seq<ModuleEventView>) -> Option<Seq<PayloadRecord>> {
    if has_malformed(events) {
        None
    } else {
        Some(all_event_records(events))
    }
}

/// Appending one item to an import section appends its record, if it parsed.
pub proof fn lemma_import_records_push(
    items: Seq<Option<ImportEntryView>>,
    item: Option<ImportEntryView>,
)
    ensures
        import_records(items.push(item)) == match item {
            Some(entry) => import_records(items).push(import_record(entry)),
            None => import_records(items),
        },
{
    assert(items.push(item).drop_last() =~= items);
}

/// Appending one item to an export section appends its record, if it parsed.
pub proof fn lemma_export_records_push(
    items: Seq<Option<ExportEntryView>>,
    item: Option<ExportEntryView>,
)
    ensures
        export_records(items.push(item)) == match item {
            Some(entry) => export_records(items).push(export_record(entry)),
            None => export_records(items),
        },
{
    assert(items.push(item).drop_last() =~= items);
}

/// The records of a list of events with one more event at its end.
pub proof fn lemma_all_event_records_push(events: Seq<ModuleEventView>, event: ModuleEventView)
    ensures
        all_event_records(events.push(event)) == all_event_records(events) + event_records(event),
{
    let per_event = |e: ModuleEventView| event_records(e);
    assert(events.push(event).map_values(per_event) =~= events.map_values(per_event).push(
        event_records(event),
    ));
    events.map_values(per_event).lemma_flatten_push(event_records(event));
}

/// The framing broke in a list with one more event at its end exactly where
/// it broke before or breaks at that event.
pub proof fn lemma_has_malformed_push(events: Seq<ModuleEventView>, event: ModuleEventView)
    ensures
        has_malformed(events.push(event)) == (has_malformed(events) || event is Malformed),
{
    let longer = events.push(event);
    if has_malformed(events) {
        let i = choose|i: int| 0 <= i < events.len() && #[trigger] events[i] is Malformed;
        assert(longer[i] is Malformed);
    }
    if event is Malformed {
        assert(longer[events.len() as int] is Malformed);
    }
    if has_malformed(longer) {
        let i = choose|i: int| 0 <= i < longer.len() && #[trigger] longer[i] is Malformed;
        if i < events.len() {
            assert(events[i] is Malformed);
        }
    }
}

/// Appends to `records` the records of an import section: one for each item
/// that parsed, in order.
pub fn push_import_records(records: &mut Vec<WasmPayload>, items: &Vec<Option<ImportEntry>>)
    ensures
        payloads_view(final(records)@) == payloads_view(old(records)@) + import_records(
            import_items_view(items@),
        ),
{
    let ghost before = payloads_view(records@);
    let ghost model = import_items_view(items@);
    let mut i: usize = 0;
    assert(model.take(0) =~= Seq::empty());
    while i < items.len()
        invariant
            i <= items.len(),
            model == import_items_view(items@),
            payloads_view(records@) == before + import_records(model.take(i as int)),
        decreases items.len() - i,
    {
        proof {
            assert(model.take(i + 1) =~= model.take(i as int).push(model[i as int]));
            lemma_import_records_push(model.take(i as int), model[i as int]);
        }
        match &items[i] {
            Some(entry) => {
                let ghost shown = records@;
                let record = WasmPayload::Import(
                    WasmPayloadImport {
                        module: entry.module.clone(),
                        name: entry.name.clone(),
                        kind: WasmImportKind::from(&entry.kind),
                    },
                );
                records.push(record);
                assert(payloads_view(records@) =~= payloads_view(shown).push(record@));
            },
            None => {},
        }
        i += 1;
    }
    assert(model.take(items.len() as int) =~= model);
}

/// Appends to `records` the records of an export section: one for each item
/// that parsed, in order.
pub fn push_export_records(records: &mut Vec<WasmPayload>, items: &Vec<Option<ExportEntry>>)
    ensures
        payloads_view(final(records)@) == payloads_view(old(records)@) + export_records(
            export_items_view(items@),
        ),
{
    let ghost before = payloads_view(records@);
    let ghost model = export_items_view(items@);
    let mut i: usize = 0;
    assert(model.take(0) =~= Seq::empty());
    while i < items.len()
        invariant
            i <= items.len(),
            model == export_items_view(items@),
            payloads_view(records@) == before + export_records(model.take(i as int)),
        decreases items.len() - i,
    {
        proof {
            assert(model.take(i + 1) =~= model.take(i as int).push(model[i as int]));
            lemma_export_records_push(model.take(i as int), model[i as int]);
        }
        match &items[i] {
            Some(entry) => {
                let ghost shown = records@;
                let record = WasmPayload::Export(
                    WasmPayloadExport {
                        name: entry.name.clone(),
                        kind: WasmExportKind::from(&entry.kind),
                        index: entry.index,
                    },
                );
                records.push(record);
                assert(payloads_view(records@) =~= payloads_view(shown).push(record@));
            },
            None => {},
        }
        i += 1;
    }
    assert(model.take(items.len() as int) =~= model);
}

/// Turns the events of a scan into its records. Where the framing broke at
/// any event the whole scan is lost and the result is `None`; otherwise each
/// header, each parsed import and each parsed export leaves one record, in
/// the order of the events, and everything else leaves none.
pub fn collect_records(events: &Vec<ModuleEvent>) -> (records: Option<Vec<WasmPayload>>)
    ensures
        match records {
            Some(list) => scan_records(events_view(events@)) == Some(payloads_view(list@)),
            None => scan_records(events_view(events@)) is None,
        },
{
    let ghost model = events_view(events@);
    let mut records: Vec<WasmPayload> = Vec::new();
    let mut i: usize = 0;
    assert(model.take(0) =~= Seq::empty());
    assert(all_event_records(Seq::empty()) =~= Seq::empty());
    while i < events.len()
        invariant
            i <= events.len(),
            model == events_view(events@),
            !has_malformed(model.take(i as int)),
            payloads_view(records@) == all_event_records(model.take(i as int)),
        decreases events.len() - i,
    {
        proof {
            assert(model.take(i + 1) =~= model.take(i as int).push(model[i as int]));
            lemma_all_event_records_push(model.take(i as int), model[i as int]);
        }
        let ghost shown = records@;
        match &events[i] {
            ModuleEvent::Version { num, encoding } => {
                let record = WasmPayload::Version(
                    WasmPayloadVersion {
                        num: *num,
                        is_module: match encoding {
                            ModuleEncoding::Module => true,
                            ModuleEncoding::Component => false,
                        },
                    },
                );
                records.push(record);
                assert(payloads_view(records@) =~= payloads_view(shown) + seq![record@]);
            },
            ModuleEvent::ImportSection(items) => {
                push_import_records(&mut records, items);
            },
            ModuleEvent::ExportSection(items) => {
                push_export_records(&mut records, items);
            },
            ModuleEvent::Other => {
                assert(payloads_view(records@) + Seq::empty() =~= payloads_view(records@));
            },
            ModuleEvent::Malformed => {
                assert(model[i as int] is Malformed);
                return None;
            },
        }
        proof {
            lemma_has_malformed_push(model.take(i as int), model[i as int]);
        }
        i += 1;
    }
    assert(model.take(events.len() as int) =~= model);
    Some(records)
}

} // verus!
