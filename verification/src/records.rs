//! The records a scan emits, and their mathematical model.

use crate::kinds::{WasmExportKind, WasmImportKind};
use vstd::prelude::*;

verus! {

/// The header of a module or component.
#[derive(Debug, Clone, PartialEq, Eq)]
pub struct WasmPayloadVersion {
    /// The version number found in the header, as it stands there.
    pub num: u16,
    /// True for a core module, false for a component.
    pub is_module: bool,
}

/// One entry of the import section.
#[derive(Debug, Clone, PartialEq, Eq)]
pub struct WasmPayloadImport {
    pub module: String,
    pub name: String,
    pub kind: WasmImportKind,
}

/// One entry of the export section. `index` counts within the index space of
/// `kind`, so the exported entity is the pair of both.
#[derive(Debug, Clone, PartialEq, Eq)]
pub struct WasmPayloadExport {
    pub name: String,
    pub kind: WasmExportKind,
    pub index: u32,
}

/// A record of a scan.
#[derive(Debug, Clone, PartialEq, Eq)]
pub enum WasmPayload {
    Version(WasmPayloadVersion),
    Import(WasmPayloadImport),
    Export(WasmPayloadExport),
}

/// The model of a record: its fields as plain values, text as `Seq<char>`.
#[allow(inconsistent_fields)]
pub enum PayloadRecord {
    Version { num: u16, is_module: bool },
    Import { module: Seq<char>, name: Seq<char>, kind: WasmImportKind },
    Export { name: Seq<char>, kind: WasmExportKind, index: u32 },
}

impl View for WasmPayload {
    type V = PayloadRecord;

    open spec fn view(&self) -> PayloadRecord {
        match *self {
            WasmPayload::Version(v) => PayloadRecord::Version {
                num: v.num,
                is_module: v.is_module,
            },
            WasmPayload::Import(i) => PayloadRecord::Import {
                module: i.module@,
                name: i.name@,
                kind: i.kind,
            },
            WasmPayload::Export(e) => PayloadRecord::Export {
                name: e.name@,
                kind: e.kind,
                index: e.index,
            },
        }
    }
}

/// The models of a list of records, in order.
pub open spec fn payloads_view(records: Seq<WasmPayload>) -> Seq<PayloadRecord> {
    records.map_values(|p: WasmPayload| p@)
}

} // verus!
