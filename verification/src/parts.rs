//! Ways to look at a scan from either side: the records of one type among
//! its records, and the entries that parsed among its events.

use crate::events::{
    all_event_records, event_records, export_record, export_records, import_record,
    import_records, lemma_all_event_records_push, lemma_export_records_push,
    lemma_import_records_push, version_record, ExportEntryView, ImportEntryView,
    ModuleEventView,
};
use crate::records::PayloadRecord;
use vstd::prelude::*;

verus! {

/// The three types of record, as the `type` field of the text tells them.
pub enum RecordTag {
    Version,
    Import,
    Export,
}

/// The type of a record.
pub open spec fn tag_of(record: PayloadRecord) -> RecordTag {
    match record {
        PayloadRecord::Version { .. } => RecordTag::Version,
        PayloadRecord::Import { .. } => RecordTag::Import,
        PayloadRecord::Export { .. } => RecordTag::Export,
    }
}

/// The records of one type among a list of records, in their order.
pub open spec fn records_tagged(records: Seq<PayloadRecord>, tag: RecordTag) -> Seq<
    PayloadRecord,
> {
    records.filter(|r: PayloadRecord| tag_of(r) == tag)
}

/// The import entries of a section that parsed, in their order.
pub open spec fn parsed_imports(items: Seq<Option<ImportEntryView>>) -> Seq<ImportEntryView> {
    items.filter_map(|item: Option<ImportEntryView>| item)
}

/// The export entries of a section that parsed, in their order.
pub open spec fn parsed_exports(items: Seq<Option<ExportEntryView>>) -> Seq<ExportEntryView> {
    items.filter_map(|item: Option<ExportEntryView>| item)
}

/// The import entries that one event holds.
pub open spec fn event_imports(event: ModuleEventView) -> Seq<ImportEntryView> {
    match event {
        ModuleEventView::ImportSection(items) => parsed_imports(items),
        _ => Seq::empty(),
    }
}

/// The export entries that one event holds.
pub open spec fn event_exports(event: ModuleEventView) -> Seq<ExportEntryView> {
    match event {
        ModuleEventView::ExportSection(items) => parsed_exports(items),
        _ => Seq::empty(),
    }
}

/// The import entries of a list of events, in file order.
pub open spec fn all_imports(events: Seq<ModuleEventView>) -> Seq<ImportEntryView> {
    events.map_values(|e: ModuleEventView| event_imports(e)).flatten()
}

/// The export entries of a list of events, in file order.
pub open spec fn all_exports(events: Seq<ModuleEventView>) -> Seq<ExportEntryView> {
    events.map_values(|e: ModuleEventView| event_exports(e)).flatten()
}

/// The records of a list of import entries, one for one.
pub open spec fn import_records_of(entries: Seq<ImportEntryView>) -> Seq<PayloadRecord> {
    entries.map_values(|e: ImportEntryView| import_record(e))
}

/// The records of a list of export entries, one for one.
pub open spec fn export_records_of(entries: Seq<ExportEntryView>) -> Seq<PayloadRecord> {
    entries.map_values(|e: ExportEntryView| export_record(e))
}

/// The header records that one event leaves.
pub open spec fn event_versions(event: ModuleEventView) -> Seq<PayloadRecord> {
    match event {
        ModuleEventView::Version { num, encoding } => seq![version_record(num, encoding)],
        _ => Seq::empty(),
    }
}

/// An empty list has no records of any type.
pub proof fn lemma_tagged_empty(tag: RecordTag)
    ensures
        records_tagged(Seq::empty(), tag) == Seq::<PayloadRecord>::empty(),
{
    reveal(Seq::filter);
}

/// One more record at the end of a list counts where it has the type.
pub proof fn lemma_tagged_push(records: Seq<PayloadRecord>, record: PayloadRecord, tag: RecordTag)
    ensures
        records_tagged(records.push(record), tag) == if tag_of(record) == tag {
            records_tagged(records, tag).push(record)
        } else {
            records_tagged(records, tag)
        },
{
    records.lemma_filter_push(record, |r: PayloadRecord| tag_of(r) == tag);
}

/// The records of one type of two lists joined are those of each, joined.
pub proof fn lemma_tagged_concat(a: Seq<PayloadRecord>, b: Seq<PayloadRecord>, tag: RecordTag)
    ensures
        records_tagged(a + b, tag) == records_tagged(a, tag) + records_tagged(b, tag),
{
    Seq::filter_distributes_over_add(a, b, |r: PayloadRecord| tag_of(r) == tag);
}

/// The entries that parsed, with one more item at the end of a section.
pub proof fn lemma_parsed_imports_push(
    items: Seq<Option<ImportEntryView>>,
    item: Option<ImportEntryView>,
)
    ensures
        parsed_imports(items.push(item)) == match item {
            Some(entry) => parsed_imports(items).push(entry),
            None => parsed_imports(items),
        },
{
    assert(items.push(item).drop_last() =~= items);
}

/// The entries that parsed, with one more item at the end of a section.
pub proof fn lemma_parsed_exports_push(
    items: Seq<Option<ExportEntryView>>,
    item: Option<ExportEntryView>,
)
    ensures
        parsed_exports(items.push(item)) == match item {
            Some(entry) => parsed_exports(items).push(entry),
            None => parsed_exports(items),
        },
{
    assert(items.push(item).drop_last() =~= items);
}

proof fn lemma_import_records_of_push(entries: Seq<ImportEntryView>, entry: ImportEntryView)
    ensures
        import_records_of(entries.push(entry)) == import_records_of(entries).push(
            import_record(entry),
        ),
{
    let longer = import_records_of(entries.push(entry));
    let pushed = import_records_of(entries).push(import_record(entry));
    assert(longer.len() == pushed.len());
    assert forall|i: int| 0 <= i < longer.len() implies longer[i] == pushed[i] by {
        if i < entries.len() {
            assert(entries.push(entry)[i] == entries[i]);
        } else {
            assert(entries.push(entry)[i] == entry);
        }
    }
    assert(longer =~= pushed);
}

proof fn lemma_export_records_of_push(entries: Seq<ExportEntryView>, entry: ExportEntryView)
    ensures
        export_records_of(entries.push(entry)) == export_records_of(entries).push(
            export_record(entry),
        ),
{
    let longer = export_records_of(entries.push(entry));
    let pushed = export_records_of(entries).push(export_record(entry));
    assert(longer.len() == pushed.len());
    assert forall|i: int| 0 <= i < longer.len() implies longer[i] == pushed[i] by {
        if i < entries.len() {
            assert(entries.push(entry)[i] == entries[i]);
        } else {
            assert(entries.push(entry)[i] == entry);
        }
    }
    assert(longer =~= pushed);
}

/// The records of an import section are import records, all of them, and
/// they are the records of its entries that parsed.
pub proof fn lemma_tagged_import_records(items: Seq<Option<ImportEntryView>>, tag: RecordTag)
    ensures
        records_tagged(import_records(items), tag) == if tag is Import {
            import_records(items)
        } else {
            Seq::empty()
        },
        import_records(items) == import_records_of(parsed_imports(items)),
    decreases items.len(),
{
    if items.len() == 0 {
        lemma_tagged_empty(tag);
        assert(import_records(items) =~= Seq::empty());
        assert(import_records_of(parsed_imports(items)) =~= Seq::empty());
    } else {
        let head = items.drop_last();
        let last = items.last();
        assert(head.push(last) =~= items);
        lemma_tagged_import_records(head, tag);
        lemma_import_records_push(head, last);
        lemma_parsed_imports_push(head, last);
        match last {
            Some(entry) => {
                lemma_tagged_push(import_records(head), import_record(entry), tag);
                lemma_import_records_of_push(parsed_imports(head), entry);
            },
            None => {},
        }
    }
}

/// The records of an export section are export records, all of them, and
/// they are the records of its entries that parsed.
pub proof fn lemma_tagged_export_records(items: Seq<Option<ExportEntryView>>, tag: RecordTag)
    ensures
        records_tagged(export_records(items), tag) == if tag is Export {
            export_records(items)
        } else {
            Seq::empty()
        },
        export_records(items) == export_records_of(parsed_exports(items)),
    decreases items.len(),
{
    if items.len() == 0 {
        lemma_tagged_empty(tag);
        assert(export_records(items) =~= Seq::empty());
        assert(export_records_of(parsed_exports(items)) =~= Seq::empty());
    } else {
        let head = items.drop_last();
        let last = items.last();
        assert(head.push(last) =~= items);
        lemma_tagged_export_records(head, tag);
        lemma_export_records_push(head, last);
        lemma_parsed_exports_push(head, last);
        match last {
            Some(entry) => {
                lemma_tagged_push(export_records(head), export_record(entry), tag);
                lemma_export_records_of_push(parsed_exports(head), entry);
            },
            None => {},
        }
    }
}

/// The records of one type that a single event leaves.
pub proof fn lemma_tagged_event_records(event: ModuleEventView, tag: RecordTag)
    ensures
        records_tagged(event_records(event), tag) == match tag {
            RecordTag::Version => event_versions(event),
            RecordTag::Import => import_records_of(event_imports(event)),
            RecordTag::Export => export_records_of(event_exports(event)),
        },
{
    lemma_tagged_empty(tag);
    assert(import_records_of(Seq::empty()) =~= Seq::empty());
    assert(export_records_of(Seq::empty()) =~= Seq::empty());
    match event {
        ModuleEventView::Version { num, encoding } => {
            let none = Seq::<PayloadRecord>::empty();
            lemma_tagged_push(none, version_record(num, encoding), tag);
            assert(none.push(version_record(num, encoding)) =~= event_records(event));
        },
        ModuleEventView::ImportSection(items) => {
            lemma_tagged_import_records(items, tag);
        },
        ModuleEventView::ExportSection(items) => {
            lemma_tagged_export_records(items, tag);
        },
        _ => {},
    }
}

/// The import entries of a list of events with one more event at its end.
pub proof fn lemma_all_imports_push(events: Seq<ModuleEventView>, event: ModuleEventView)
    ensures
        all_imports(events.push(event)) == all_imports(events) + event_imports(event),
{
    let per_event = |e: ModuleEventView| event_imports(e);
    assert(events.push(event).map_values(per_event) =~= events.map_values(per_event).push(
        event_imports(event),
    ));
    events.map_values(per_event).lemma_flatten_push(event_imports(event));
}

/// The export entries of a list of events with one more event at its end.
pub proof fn lemma_all_exports_push(events: Seq<ModuleEventView>, event: ModuleEventView)
    ensures
        all_exports(events.push(event)) == all_exports(events) + event_exports(event),
{
    let per_event = |e: ModuleEventView| event_exports(e);
    assert(events.push(event).map_values(per_event) =~= events.map_values(per_event).push(
        event_exports(event),
    ));
    events.map_values(per_event).lemma_flatten_push(event_exports(event));
}

/// The records of one type of a list of events with one more event at its
/// end.
pub proof fn lemma_tagged_all_push(
    events: Seq<ModuleEventView>,
    event: ModuleEventView,
    tag: RecordTag,
)
    ensures
        records_tagged(all_event_records(events.push(event)), tag) == records_tagged(
            all_event_records(events),
            tag,
        ) + records_tagged(event_records(event), tag),
{
    lemma_all_event_records_push(events, event);
    lemma_tagged_concat(all_event_records(events), event_records(event), tag);
}

} // verus!
