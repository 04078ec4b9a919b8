use sc_scan_01::events::{
    collect_records, push_export_records, push_import_records, ExportEntry, ImportEntry,
    ModuleEncoding, ModuleEvent,
};
use sc_scan_01::frames::{decode_events, decode_frame, Frame};
use sc_scan_01::kinds::{ExternKind, WasmExportKind, WasmImportKind};
use sc_scan_01::records::{
    WasmPayload, WasmPayloadExport, WasmPayloadImport, WasmPayloadVersion,
};

fn import_entry(module: &str, name: &str, kind: ExternKind) -> Option<ImportEntry> {
    Some(ImportEntry::new(module, name, kind))
}

fn export_entry(name: &str, index: u32, kind: ExternKind) -> Option<ExportEntry> {
    Some(ExportEntry::new(name, index, kind))
}

fn version(num: u16, is_module: bool) -> WasmPayload {
    WasmPayload::Version(WasmPayloadVersion { num, is_module })
}

fn import_record(module: &str, name: &str, kind: WasmImportKind) -> WasmPayload {
    WasmPayload::Import(WasmPayloadImport {
        module: module.to_string(),
        name: name.to_string(),
        kind,
    })
}

fn export_record(name: &str, kind: WasmExportKind, index: u32) -> WasmPayload {
    WasmPayload::Export(WasmPayloadExport { name: name.to_string(), kind, index })
}

fn module_version() -> ModuleEvent {
    ModuleEvent::Version { num: 1, encoding: ModuleEncoding::Module }
}

#[test]
fn import_kind_follows_the_external_kind() {
    assert_eq!(WasmImportKind::from(&ExternKind::Func), WasmImportKind::Func);
    assert_eq!(WasmImportKind::from(&ExternKind::Table), WasmImportKind::Table);
    assert_eq!(WasmImportKind::from(&ExternKind::Memory), WasmImportKind::Memory);
    assert_eq!(WasmImportKind::from(&ExternKind::Global), WasmImportKind::Global);
    assert_eq!(WasmImportKind::from(&ExternKind::Tag), WasmImportKind::Tag);
}

#[test]
fn export_kind_follows_the_external_kind() {
    assert_eq!(WasmExportKind::from(&ExternKind::Func), WasmExportKind::Func);
    assert_eq!(WasmExportKind::from(&ExternKind::Table), WasmExportKind::Table);
    assert_eq!(WasmExportKind::from(&ExternKind::Memory), WasmExportKind::Memory);
    assert_eq!(WasmExportKind::from(&ExternKind::Global), WasmExportKind::Global);
    assert_eq!(WasmExportKind::from(&ExternKind::Tag), WasmExportKind::Tag);
}

#[test]
fn entries_keep_what_they_are_made_of() {
    let import = ImportEntry::new("env", "abort", ExternKind::Func);
    assert_eq!(import.module, "env");
    assert_eq!(import.name, "abort");
    assert_eq!(import.kind, ExternKind::Func);
    let export = ExportEntry::new("memory", 3, ExternKind::Memory);
    assert_eq!(export.name, "memory");
    assert_eq!(export.index, 3);
    assert_eq!(export.kind, ExternKind::Memory);
}

#[test]
fn no_events_give_no_records() {
    assert_eq!(collect_records(&vec![]), Some(vec![]));
}

#[test]
fn events_leave_their_records_in_order() {
    let events = vec![
        module_version(),
        ModuleEvent::Other,
        ModuleEvent::ExportSection(vec![export_entry("memory", 0, ExternKind::Memory)]),
        ModuleEvent::ImportSection(vec![
            import_entry("env", "abort", ExternKind::Func),
            import_entry("env", "table", ExternKind::Table),
        ]),
        ModuleEvent::Other,
        ModuleEvent::ExportSection(vec![export_entry("main", 4, ExternKind::Func)]),
    ];
    assert_eq!(
        collect_records(&events),
        Some(vec![
            version(1, true),
            export_record("memory", WasmExportKind::Memory, 0),
            import_record("env", "abort", WasmImportKind::Func),
            import_record("env", "table", WasmImportKind::Table),
            export_record("main", WasmExportKind::Func, 4),
        ])
    );
}

#[test]
fn component_header_record_says_not_a_module() {
    let events = vec![ModuleEvent::Version { num: 13, encoding: ModuleEncoding::Component }];
    assert_eq!(collect_records(&events), Some(vec![version(13, false)]));
}

#[test]
fn items_that_did_not_parse_are_skipped() {
    let events = vec![
        module_version(),
        ModuleEvent::ImportSection(vec![
            None,
            import_entry("a", "one", ExternKind::Func),
            None,
            import_entry("a", "two", ExternKind::Global),
            None,
        ]),
        ModuleEvent::ExportSection(vec![None, None]),
        ModuleEvent::ExportSection(vec![None, export_entry("x", 9, ExternKind::Tag)]),
    ];
    assert_eq!(
        collect_records(&events),
        Some(vec![
            version(1, true),
            import_record("a", "one", WasmImportKind::Func),
            import_record("a", "two", WasmImportKind::Global),
            export_record("x", WasmExportKind::Tag, 9),
        ])
    );
}

#[test]
fn one_broken_item_takes_only_its_own_record() {
    let sound = vec![
        module_version(),
        ModuleEvent::ImportSection(vec![
            import_entry("a", "one", ExternKind::Func),
            import_entry("a", "two", ExternKind::Func),
            import_entry("a", "three", ExternKind::Func),
        ]),
        ModuleEvent::ExportSection(vec![export_entry("x", 0, ExternKind::Func)]),
    ];
    let broken = vec![
        module_version(),
        ModuleEvent::ImportSection(vec![
            import_entry("a", "one", ExternKind::Func),
            None,
            import_entry("a", "three", ExternKind::Func),
        ]),
        ModuleEvent::ExportSection(vec![export_entry("x", 0, ExternKind::Func)]),
    ];
    let mut wanted = collect_records(&sound).unwrap();
    assert_eq!(wanted.remove(2), import_record("a", "two", WasmImportKind::Func));
    assert_eq!(collect_records(&broken), Some(wanted));
}

#[test]
fn broken_framing_loses_every_record() {
    let last = vec![
        module_version(),
        ModuleEvent::ImportSection(vec![import_entry("env", "abort", ExternKind::Func)]),
        ModuleEvent::Malformed,
    ];
    assert_eq!(collect_records(&last), None);
    let first = vec![ModuleEvent::Malformed, module_version()];
    assert_eq!(collect_records(&first), None);
    assert_eq!(collect_records(&vec![ModuleEvent::Malformed]), None);
}

#[test]
fn well_formed_events_hold_one_version_record() {
    let events = vec![
        module_version(),
        ModuleEvent::ImportSection(vec![import_entry("env", "abort", ExternKind::Func)]),
        ModuleEvent::Other,
        ModuleEvent::ExportSection(vec![export_entry("memory", 0, ExternKind::Memory)]),
    ];
    let records = collect_records(&events).unwrap();
    let versions: Vec<&WasmPayload> =
        records.iter().filter(|r| matches!(r, WasmPayload::Version(_))).collect();
    assert_eq!(versions, vec![&version(1, true)]);
}

#[test]
fn distinct_entities_stay_distinct() {
    let events = vec![
        ModuleEvent::ExportSection(vec![
            export_entry("f", 0, ExternKind::Func),
            export_entry("m", 0, ExternKind::Memory),
        ]),
        ModuleEvent::ExportSection(vec![
            export_entry("g", 1, ExternKind::Func),
            export_entry("t", 0, ExternKind::Table),
        ]),
    ];
    let records = collect_records(&events).unwrap();
    assert_eq!(records.len(), 4);
    for (i, first) in records.iter().enumerate() {
        for second in records.iter().skip(i + 1) {
            match (first, second) {
                (WasmPayload::Export(a), WasmPayload::Export(b)) => {
                    assert!(a.index != b.index || a.kind != b.kind);
                }
                _ => unreachable!(),
            }
        }
    }
}

#[test]
fn pushing_records_keeps_what_was_there() {
    let mut records = vec![version(1, true)];
    push_import_records(
        &mut records,
        &vec![None, import_entry("env", "abort", ExternKind::Func)],
    );
    push_export_records(
        &mut records,
        &vec![export_entry("memory", 0, ExternKind::Memory), None],
    );
    assert_eq!(
        records,
        vec![
            version(1, true),
            import_record("env", "abort", WasmImportKind::Func),
            export_record("memory", WasmExportKind::Memory, 0),
        ]
    );
}

#[test]
fn frames_inside_a_nested_module_leave_no_event() {
    let frames = vec![
        Frame::ComponentHeader(13),
        Frame::NestedStart,
        Frame::ModuleHeader(1),
        Frame::ImportSection(0..0),
        Frame::NestedStart,
        Frame::ComponentHeader(13),
        Frame::End,
        Frame::Other,
        Frame::End,
        Frame::Other,
        Frame::End,
    ];
    assert_eq!(
        decode_events(&[], &frames),
        vec![
            ModuleEvent::Version { num: 13, encoding: ModuleEncoding::Component },
            ModuleEvent::Other,
        ]
    );
}

#[test]
fn frames_behind_the_end_leave_no_event() {
    let frames = vec![Frame::ModuleHeader(1), Frame::End, Frame::ModuleHeader(2), Frame::Malformed];
    assert_eq!(decode_events(&[], &frames), vec![module_version()]);
}

#[test]
fn broken_frame_closes_the_events() {
    let frames = vec![Frame::ModuleHeader(1), Frame::Other, Frame::Malformed, Frame::Other];
    let events = decode_events(&[], &frames);
    assert_eq!(events, vec![module_version(), ModuleEvent::Other, ModuleEvent::Malformed]);
    assert_eq!(collect_records(&events), None);
}

#[test]
fn broken_frame_inside_a_nested_module_closes_the_events() {
    let frames = vec![Frame::ComponentHeader(13), Frame::NestedStart, Frame::Malformed];
    assert_eq!(
        decode_events(&[], &frames),
        vec![
            ModuleEvent::Version { num: 13, encoding: ModuleEncoding::Component },
            ModuleEvent::Malformed,
        ]
    );
}

#[test]
fn no_frames_give_no_events() {
    assert_eq!(decode_events(&[1, 2, 3], &vec![]), vec![]);
}

#[test]
fn section_outside_the_bytes_is_broken_framing() {
    let bytes = [0x00u8; 4];
    assert_eq!(decode_frame(&bytes, &Frame::ImportSection(2..5)), ModuleEvent::Malformed);
    assert_eq!(decode_frame(&bytes, &Frame::ExportSection(2..5)), ModuleEvent::Malformed);
    assert_eq!(decode_frame(&bytes, &Frame::ImportSection(3..2)), ModuleEvent::Malformed);
    assert_eq!(decode_frame(&bytes, &Frame::ExportSection(3..2)), ModuleEvent::Malformed);
    assert_eq!(decode_frame(&bytes, &Frame::ExportSection(4..4)), ModuleEvent::Malformed);
    assert_eq!(
        decode_frame(&bytes, &Frame::ExportSection(3..4)),
        ModuleEvent::ExportSection(vec![])
    );
}

#[test]
fn section_items_are_read_from_its_range() {
    let bytes = [
        0xff, 0x01, 0x01, b'm', 0x01, b'n', 0x03, 0x7f, 0x01, 0x02, 0x01, b'e', 0x02, 0x05, 0x01,
        b'f', 0x00, 0x80, 0x01,
    ];
    assert_eq!(
        decode_frame(&bytes, &Frame::ImportSection(1..9)),
        ModuleEvent::ImportSection(vec![import_entry("m", "n", ExternKind::Global)])
    );
    assert_eq!(
        decode_frame(&bytes, &Frame::ExportSection(9..19)),
        ModuleEvent::ExportSection(vec![
            export_entry("e", 5, ExternKind::Memory),
            export_entry("f", 128, ExternKind::Func),
        ])
    );
}

#[test]
fn frames_that_are_no_section_decode_without_the_bytes() {
    assert_eq!(decode_frame(&[], &Frame::ModuleHeader(1)), module_version());
    assert_eq!(
        decode_frame(&[], &Frame::ComponentHeader(13)),
        ModuleEvent::Version { num: 13, encoding: ModuleEncoding::Component }
    );
    assert_eq!(decode_frame(&[], &Frame::Other), ModuleEvent::Other);
    assert_eq!(decode_frame(&[], &Frame::NestedStart), ModuleEvent::Other);
    assert_eq!(decode_frame(&[], &Frame::End), ModuleEvent::Other);
    assert_eq!(decode_frame(&[], &Frame::Malformed), ModuleEvent::Malformed);
}

#[test]
fn section_items_end_at_the_first_that_does_not_parse() {
    let bytes = [
        0x02, 0x01, b'e', 0x09, 0x05, 0x01, b'f', 0x00, 0x01,
    ];
    assert_eq!(
        decode_frame(&bytes, &Frame::ExportSection(0..9)),
        ModuleEvent::ExportSection(vec![None])
    );
    let sound_then_broken = [
        0x02, 0x01, b'e', 0x02, 0x05, 0x01, b'f', 0x09, 0x01,
    ];
    assert_eq!(
        decode_frame(&sound_then_broken, &Frame::ExportSection(0..9)),
        ModuleEvent::ExportSection(vec![export_entry("e", 5, ExternKind::Memory), None])
    );
}
