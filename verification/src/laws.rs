//! What holds of every scan, stated over the models and proved.

use crate::events::{
    all_event_records, event_records, export_record, export_records, has_malformed,
    import_record, import_records, lemma_all_event_records_push, lemma_export_records_push,
    lemma_import_records_push, scan_records, ExportEntryView, ImportEntryView, ModuleEncoding,
    ModuleEventView,
};
use crate::frames::{module_frames, top_level_events_from, Frame};
use crate::json::empty_result_text;
use crate::limits::lengths_fit;
use crate::parser::{module_records, module_text};
use crate::parts::{
    all_exports, all_imports, event_exports, event_imports, export_records_of,
    import_records_of, lemma_all_exports_push, lemma_all_imports_push, lemma_tagged_all_push,
    lemma_tagged_empty, lemma_tagged_event_records, lemma_tagged_push, records_tagged, tag_of,
    RecordTag,
};
use crate::records::PayloadRecord;
use vstd::prelude::*;
use vstd::seq_lib::lemma_flatten_concat;

verus! {

/// Scanning is a function of the bytes: two byte sequences that agree byte
/// for byte have the same records and the same text.
pub proof fn lemma_scan_is_deterministic(first: Seq<u8>, second: Seq<u8>)
    requires
        first.len() == second.len(),
        forall|i: int| 0 <= i < first.len() ==> first[i] == second[i],
    ensures
        module_records(first) == module_records(second),
        module_text(first) == module_text(second),
{
    assert(first =~= second);
}

/// Imports keep their file order: the import records of a scan are the
/// records of the import entries that parsed, one for one and in the order
/// of the entries, whatever headers, exports and other events stand between
/// them.
pub proof fn lemma_imports_keep_file_order(events: Seq<ModuleEventView>)
    ensures
        records_tagged(all_event_records(events), RecordTag::Import) == import_records_of(
            all_imports(events),
        ),
        !has_malformed(events) ==> (scan_records(events) matches Some(records) && records_tagged(
            records,
            RecordTag::Import,
        ) == import_records_of(all_imports(events))),
    decreases events.len(),
{
    if events.len() == 0 {
        lemma_tagged_empty(RecordTag::Import);
        assert(all_event_records(events) =~= Seq::empty());
        assert(all_imports(events) =~= Seq::empty());
        assert(import_records_of(all_imports(events)) =~= Seq::empty());
    } else {
        let head = events.drop_last();
        let last = events.last();
        assert(head.push(last) =~= events);
        lemma_imports_keep_file_order(head);
        lemma_tagged_all_push(head, last, RecordTag::Import);
        lemma_tagged_event_records(last, RecordTag::Import);
        lemma_all_imports_push(head, last);
        assert(import_records_of(all_imports(head) + event_imports(last)) =~= import_records_of(
            all_imports(head),
        ) + import_records_of(event_imports(last)));
    }
}

/// Exports keep their file order: the export records of a scan are the
/// records of the export entries that parsed, one for one and in the order
/// of the entries.
pub proof fn lemma_exports_keep_file_order(events: Seq<ModuleEventView>)
    ensures
        records_tagged(all_event_records(events), RecordTag::Export) == export_records_of(
            all_exports(events),
        ),
        !has_malformed(events) ==> (scan_records(events) matches Some(records) && records_tagged(
            records,
            RecordTag::Export,
        ) == export_records_of(all_exports(events))),
    decreases events.len(),
{
    if events.len() == 0 {
        lemma_tagged_empty(RecordTag::Export);
        assert(all_event_records(events) =~= Seq::empty());
        assert(all_exports(events) =~= Seq::empty());
        assert(export_records_of(all_exports(events)) =~= Seq::empty());
    } else {
        let head = events.drop_last();
        let last = events.last();
        assert(head.push(last) =~= events);
        lemma_exports_keep_file_order(head);
        lemma_tagged_all_push(head, last, RecordTag::Export);
        lemma_tagged_event_records(last, RecordTag::Export);
        lemma_all_exports_push(head, last);
        assert(export_records_of(all_exports(head) + event_exports(last)) =~= export_records_of(
            all_exports(head),
        ) + export_records_of(event_exports(last)));
    }
}

/// Whether two records are export records of one entity: the same index
/// within the same kind.
pub open spec fn export_same_entity(a: PayloadRecord, b: PayloadRecord) -> bool {
    match (a, b) {
        (
            PayloadRecord::Export { kind: first_kind, index: first_index, .. },
            PayloadRecord::Export { kind: second_kind, index: second_index, .. },
        ) => first_index == second_index && first_kind == second_kind,
        _ => false,
    }
}

/// No two records of the list are export records of one entity: export
/// records that share an index differ in kind.
pub open spec fn exports_name_distinct_entities(records: Seq<PayloadRecord>) -> bool {
    forall|i: int, j: int|
        0 <= i < j < records.len() ==> !export_same_entity(
            #[trigger] records[i],
            #[trigger] records[j],
        )
}

/// No two entries of the list name one entity: entries that share an index
/// differ in kind.
pub open spec fn entries_name_distinct_entities(entries: Seq<ExportEntryView>) -> bool {
    forall|i: int, j: int|
        0 <= i < j < entries.len() && (#[trigger] entries[i]).index == (
        #[trigger] entries[j]).index ==> entries[i].kind != entries[j].kind
}

proof fn lemma_distinct_among_exports_is_distinct(records: Seq<PayloadRecord>)
    requires
        exports_name_distinct_entities(records_tagged(records, RecordTag::Export)),
    ensures
        exports_name_distinct_entities(records),
    decreases records.len(),
{
    if records.len() > 0 {
        let head = records.drop_last();
        let last = records.last();
        assert(head.push(last) =~= records);
        lemma_tagged_push(head, last, RecordTag::Export);
        let part = records_tagged(records, RecordTag::Export);
        let head_part = records_tagged(head, RecordTag::Export);
        assert(exports_name_distinct_entities(head_part)) by {
            assert forall|i: int, j: int| 0 <= i < j < head_part.len() implies !export_same_entity(
                #[trigger] head_part[i],
                #[trigger] head_part[j],
            ) by {
                assert(part[i] == head_part[i]);
                assert(part[j] == head_part[j]);
            }
        }
        lemma_distinct_among_exports_is_distinct(head);
        assert forall|i: int, j: int| 0 <= i < j < records.len() implies !export_same_entity(
            #[trigger] records[i],
            #[trigger] records[j],
        ) by {
            if j < head.len() {
                assert(head[i] == records[i]);
                assert(head[j] == records[j]);
            } else if export_same_entity(records[i], records[j]) {
                head.lemma_filter_contains(
                    |r: PayloadRecord| tag_of(r) == RecordTag::Export,
                    i,
                );
                assert(head_part.contains(head[i]));
                let k = choose|k: int| 0 <= k < head_part.len() && head_part[k] == head[i];
                assert(part[k] == head[i]);
                assert(part[head_part.len() as int] == last);
                assert(false);
            }
        }
    }
}

/// Index spaces stay apart: where no two export entries that parsed name
/// the same index within the same kind, no two export records of the scan
/// do, so that records sharing an index differ in kind. A binary may export
/// one entity under two names; of such a binary the scan reports what it
/// says, and nothing is claimed here.
pub proof fn lemma_export_entities_stay_distinct(events: Seq<ModuleEventView>)
    requires
        entries_name_distinct_entities(all_exports(events)),
    ensures
        exports_name_distinct_entities(all_event_records(events)),
        !has_malformed(events) ==> (scan_records(events) matches Some(records)
            && exports_name_distinct_entities(records)),
{
    lemma_exports_keep_file_order(events);
    let entries = all_exports(events);
    let part = records_tagged(all_event_records(events), RecordTag::Export);
    assert forall|i: int, j: int| 0 <= i < j < part.len() implies !export_same_entity(
        #[trigger] part[i],
        #[trigger] part[j],
    ) by {
        assert(part[i] == export_record(entries[i]));
        assert(part[j] == export_record(entries[j]));
    }
    lemma_distinct_among_exports_is_distinct(all_event_records(events));
}

/// The events of a well-formed binary: the framing holds throughout, and the
/// header comes first and once.
pub open spec fn is_well_formed(events: Seq<ModuleEventView>) -> bool {
    &&& events.len() > 0
    &&& events[0] is Version
    &&& !has_malformed(events)
    &&& forall|i: int| 1 <= i < events.len() ==> !(#[trigger] events[i] is Version)
}

proof fn lemma_one_header_one_record(events: Seq<ModuleEventView>)
    requires
        events.len() > 0,
        events[0] is Version,
        forall|i: int| 1 <= i < events.len() ==> !(#[trigger] events[i] is Version),
    ensures
        records_tagged(all_event_records(events), RecordTag::Version) == event_records(events[0]),
    decreases events.len(),
{
    let head = events.drop_last();
    let last = events.last();
    assert(head.push(last) =~= events);
    lemma_tagged_all_push(head, last, RecordTag::Version);
    lemma_tagged_event_records(last, RecordTag::Version);
    if events.len() == 1 {
        lemma_tagged_empty(RecordTag::Version);
        assert(all_event_records(head) =~= Seq::empty());
        assert(Seq::<PayloadRecord>::empty() + event_records(last) =~= event_records(last));
    } else {
        assert(head[0] == events[0]);
        assert forall|i: int| 1 <= i < head.len() implies !(#[trigger] head[i] is Version) by {
            assert(head[i] == events[i]);
        }
        lemma_one_header_one_record(head);
        assert(!(events[events.len() - 1] is Version));
        assert(event_records(events[0]) + Seq::<PayloadRecord>::empty() =~= event_records(
            events[0],
        ));
    }
}

/// One header, one record: the scan of a well-formed binary holds exactly
/// one header record. It carries the version number of the header, and says
/// `is_module` exactly where the header announces a core module.
pub proof fn lemma_single_version_record(events: Seq<ModuleEventView>)
    requires
        is_well_formed(events),
    ensures
        scan_records(events) matches Some(records) && records_tagged(records, RecordTag::Version)
            == seq![
            PayloadRecord::Version {
                num: events[0]->Version_num,
                is_module: events[0]->Version_encoding == ModuleEncoding::Module,
            },
        ],
{
    lemma_one_header_one_record(events);
}

proof fn lemma_import_records_concat(
    a: Seq<Option<ImportEntryView>>,
    b: Seq<Option<ImportEntryView>>,
)
    ensures
        import_records(a + b) == import_records(a) + import_records(b),
    decreases b.len(),
{
    if b.len() == 0 {
        assert(a + b =~= a);
        assert(import_records(b) =~= Seq::empty());
        assert(import_records(a) + Seq::empty() =~= import_records(a));
    } else {
        let head = b.drop_last();
        assert(head.push(b.last()) =~= b);
        assert((a + head).push(b.last()) =~= a + b);
        lemma_import_records_concat(a, head);
        lemma_import_records_push(a + head, b.last());
        lemma_import_records_push(head, b.last());
        assert(import_records(a + b) =~= import_records(a) + import_records(b));
    }
}

proof fn lemma_export_records_concat(
    a: Seq<Option<ExportEntryView>>,
    b: Seq<Option<ExportEntryView>>,
)
    ensures
        export_records(a + b) == export_records(a) + export_records(b),
    decreases b.len(),
{
    if b.len() == 0 {
        assert(a + b =~= a);
        assert(export_records(b) =~= Seq::empty());
        assert(export_records(a) + Seq::empty() =~= export_records(a));
    } else {
        let head = b.drop_last();
        assert(head.push(b.last()) =~= b);
        assert((a + head).push(b.last()) =~= a + b);
        lemma_export_records_concat(a, head);
        lemma_export_records_push(a + head, b.last());
        lemma_export_records_push(head, b.last());
        assert(export_records(a + b) =~= export_records(a) + export_records(b));
    }
}

proof fn lemma_all_event_records_split(events: Seq<ModuleEventView>, at: int)
    requires
        0 <= at < events.len(),
    ensures
        all_event_records(events) == all_event_records(events.take(at)) + event_records(
            events[at],
        ) + all_event_records(events.skip(at + 1)),
{
    let before = events.take(at).push(events[at]);
    let after = events.skip(at + 1);
    let per_event = |e: ModuleEventView| event_records(e);
    assert(events =~= before + after);
    assert((before + after).map_values(per_event) =~= before.map_values(per_event)
        + after.map_values(per_event));
    lemma_flatten_concat(before.map_values(per_event), after.map_values(per_event));
    lemma_all_event_records_push(events.take(at), events[at]);
}

proof fn lemma_sound_event_keeps_framing(
    events: Seq<ModuleEventView>,
    at: int,
    event: ModuleEventView,
)
    requires
        0 <= at < events.len(),
        !has_malformed(events),
        !(event is Malformed),
    ensures
        !has_malformed(events.update(at, event)),
{
    let changed = events.update(at, event);
    if has_malformed(changed) {
        let i = choose|i: int| 0 <= i < changed.len() && #[trigger] changed[i] is Malformed;
        assert(events[i] is Malformed);
    }
}

/// The place of a record among the records of its events: behind those of
/// the `section` events before its own, and behind `within` records of its
/// own section.
pub open spec fn record_position(events: Seq<ModuleEventView>, section: int, within: nat) -> int {
    (all_event_records(events.take(section)).len() + within) as int
}

/// A broken import item drops only its own record. This is said of lists
/// of items as values: take events whose framing holds, and put `None` in
/// the place of one import item that parsed. The scan still succeeds, and
/// its records are those of the sound events without the one record of that
/// item.
///
/// A list that is read from the bytes of a binary ends at its first item
/// that does not parse (`section_ends_at_failure`), so of a binary this
/// covers a broken item that is the last of its list. Entries that the
/// bytes hold behind a broken one are in no list, and leave no record.
pub proof fn lemma_broken_import_item_drops_only_itself(
    events: Seq<ModuleEventView>,
    section: int,
    items: Seq<Option<ImportEntryView>>,
    item: int,
    entry: ImportEntryView,
)
    requires
        !has_malformed(events),
        0 <= section < events.len(),
        events[section] == ModuleEventView::ImportSection(items),
        0 <= item < items.len(),
        items[item] == Some(entry),
    ensures
        ({
            let broken = events.update(
                section,
                ModuleEventView::ImportSection(items.update(item, None)),
            );
            let at = record_position(events, section, import_records(items.take(item)).len());
            &&& scan_records(events) matches Some(sound) && scan_records(broken) matches Some(
                rest,
            ) && 0 <= at < sound.len() && sound[at] == import_record(entry) && rest
                == sound.remove(at)
        }),
{
    let holed = items.update(item, None);
    let broken = events.update(section, ModuleEventView::ImportSection(holed));
    lemma_sound_event_keeps_framing(events, section, ModuleEventView::ImportSection(holed));
    lemma_all_event_records_split(events, section);
    lemma_all_event_records_split(broken, section);
    assert(broken.take(section) =~= events.take(section));
    assert(broken.skip(section + 1) =~= events.skip(section + 1));
    let before = items.take(item);
    let after = items.skip(item + 1);
    assert(items =~= before.push(Some(entry)) + after);
    assert(holed =~= before.push(None) + after);
    lemma_import_records_concat(before.push(Some(entry)), after);
    lemma_import_records_concat(before.push(None), after);
    lemma_import_records_push(before, Some(entry));
    lemma_import_records_push(before, None);
    let sound = all_event_records(events);
    let at = record_position(events, section, import_records(before).len());
    assert(all_event_records(broken) =~= sound.remove(at));
}

/// A broken export item drops only its own record. This is said of lists
/// of items as values: take events whose framing holds, and put `None` in
/// the place of one export item that parsed. The scan still succeeds, and
/// its records are those of the sound events without the one record of that
/// item.
///
/// A list that is read from the bytes of a binary ends at its first item
/// that does not parse (`section_ends_at_failure`), so of a binary this
/// covers a broken item that is the last of its list. Entries that the
/// bytes hold behind a broken one are in no list, and leave no record.
pub proof fn lemma_broken_export_item_drops_only_itself(
    events: Seq<ModuleEventView>,
    section: int,
    items: Seq<Option<ExportEntryView>>,
    item: int,
    entry: ExportEntryView,
)
    requires
        !has_malformed(events),
        0 <= section < events.len(),
        events[section] == ModuleEventView::ExportSection(items),
        0 <= item < items.len(),
        items[item] == Some(entry),
    ensures
        ({
            let broken = events.update(
                section,
                ModuleEventView::ExportSection(items.update(item, None)),
            );
            let at = record_position(events, section, export_records(items.take(item)).len());
            &&& scan_records(events) matches Some(sound) && scan_records(broken) matches Some(
                rest,
            ) && 0 <= at < sound.len() && sound[at] == export_record(entry) && rest
                == sound.remove(at)
        }),
{
    let holed = items.update(item, None);
    let broken = events.update(section, ModuleEventView::ExportSection(holed));
    lemma_sound_event_keeps_framing(events, section, ModuleEventView::ExportSection(holed));
    lemma_all_event_records_split(events, section);
    lemma_all_event_records_split(broken, section);
    assert(broken.take(section) =~= events.take(section));
    assert(broken.skip(section + 1) =~= events.skip(section + 1));
    let before = items.take(item);
    let after = items.skip(item + 1);
    assert(items =~= before.push(Some(entry)) + after);
    assert(holed =~= before.push(None) + after);
    lemma_export_records_concat(before.push(Some(entry)), after);
    lemma_export_records_concat(before.push(None), after);
    lemma_export_records_push(before, Some(entry));
    lemma_export_records_push(before, None);
    let sound = all_event_records(events);
    let at = record_position(events, section, export_records(before).len());
    assert(all_event_records(broken) =~= sound.remove(at));
}

/// Broken framing loses everything: once the framing broke at any event,
/// the scan reports nothing at all.
pub proof fn lemma_broken_framing_loses_all(events: Seq<ModuleEventView>, at: int)
    requires
        0 <= at < events.len(),
        events[at] is Malformed,
    ensures
        scan_records(events) is None,
{
}

proof fn lemma_broken_frame_is_reached(bytes: Seq<u8>, frames: Seq<Frame>, depth: nat, at: int)
    requires
        0 <= at < frames.len(),
        frames[at] is Malformed,
        forall|i: int| 0 <= i < at ==> !(#[trigger] frames[i] is End),
    ensures
        has_malformed(top_level_events_from(bytes, frames, depth)),
    decreases frames.len(),
{
    let events = top_level_events_from(bytes, frames, depth);
    if at == 0 {
        assert(events[0] is Malformed);
    } else {
        let rest = frames.drop_first();
        assert(rest[at - 1] == frames[at]);
        assert forall|i: int| 0 <= i < at - 1 implies !(#[trigger] rest[i] is End) by {
            assert(rest[i] == frames[i + 1]);
        }
        assert(!(frames[0] is End));
        match frames.first() {
            Frame::Malformed => {
                assert(events[0] is Malformed);
            },
            Frame::NestedStart => {
                lemma_broken_frame_is_reached(bytes, rest, depth + 1, at - 1);
            },
            Frame::End => {},
            frame => {
                if depth == 0 {
                    lemma_broken_frame_is_reached(bytes, rest, 0, at - 1);
                    let tail = top_level_events_from(bytes, rest, 0);
                    let i = choose|i: int| 0 <= i < tail.len() && #[trigger] tail[i] is Malformed;
                    assert(events[i + 1] == tail[i]);
                } else {
                    lemma_broken_frame_is_reached(bytes, rest, depth, at - 1);
                }
            },
        }
    }
}

/// A broken binary has the empty text: where the payload stream of a binary
/// breaks before any module or component has ended, as it does for a broken
/// header, the scan has no records and its text is the empty array.
pub proof fn lemma_broken_binary_yields_empty_text(bytes: Seq<u8>, at: int)
    requires
        0 <= at < module_frames(bytes).len(),
        module_frames(bytes)[at] is Malformed,
        forall|i: int| 0 <= i < at ==> !(#[trigger] module_frames(bytes)[i] is End),
    ensures
        module_records(bytes) is None,
        module_text(bytes) == empty_result_text(),
{
    lemma_broken_frame_is_reached(bytes, module_frames(bytes), 0, at);
}

/// A binary that does not fit the machine has the empty text: where some
/// offset of the bytes could declare a length that runs over a machine
/// word, the binary is not parsed, the scan has no records and its text is
/// the empty array.
pub proof fn lemma_unfit_binary_yields_empty_text(bytes: Seq<u8>)
    requires
        !lengths_fit(bytes),
    ensures
        module_records(bytes) is None,
        module_text(bytes) == empty_result_text(),
{
}

} // verus!
