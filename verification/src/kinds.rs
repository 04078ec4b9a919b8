//! The five-way external-kind taxonomy of import and export entries, and the
//! kinds carried by the emitted records.

use vstd::prelude::*;
use vstd::std_specs::convert::FromSpecImpl;

verus! {

/// What an import or export entry of the binary format refers to.
#[derive(Debug, Clone, Copy, PartialEq, Eq, Structural)]
pub enum ExternKind {
    Func,
    Table,
    Memory,
    Global,
    Tag,
}

/// The kind of entity an import record asks for.
#[derive(Debug, Clone, Copy, PartialEq, Eq, Structural)]
pub enum WasmImportKind {
    Func,
    Table,
    Memory,
    Global,
    Tag,
}

/// The kind of entity an export record exposes.
#[derive(Debug, Clone, Copy, PartialEq, Eq, PartialOrd, Structural)]
pub enum WasmExportKind {
    Func,
    Table,
    Memory,
    Global,
    Tag,
}

/// The import kind that stands for an external kind.
pub open spec fn import_kind_of(kind: ExternKind) -> WasmImportKind {
    match kind {
        ExternKind::Func => WasmImportKind::Func,
        ExternKind::Table => WasmImportKind::Table,
        ExternKind::Memory => WasmImportKind::Memory,
        ExternKind::Global => WasmImportKind::Global,
        ExternKind::Tag => WasmImportKind::Tag,
    }
}

/// The export kind that stands for an external kind.
pub open spec fn export_kind_of(kind: ExternKind) -> WasmExportKind {
    match kind {
        ExternKind::Func => WasmExportKind::Func,
        ExternKind::Table => WasmExportKind::Table,
        ExternKind::Memory => WasmExportKind::Memory,
        ExternKind::Global => WasmExportKind::Global,
        ExternKind::Tag => WasmExportKind::Tag,
    }
}

impl From<&ExternKind> for WasmImportKind {
    /// The import kind of the same name as the external kind: a fixed
    /// mapping of five onto five, stated by `from_spec`.
    fn from(value: &ExternKind) -> (kind: Self) {
        match value {
            ExternKind::Func => WasmImportKind::Func,
            ExternKind::Table => WasmImportKind::Table,
            ExternKind::Memory => WasmImportKind::Memory,
            ExternKind::Global => WasmImportKind::Global,
            ExternKind::Tag => WasmImportKind::Tag,
        }
    }
}

impl FromSpecImpl<&ExternKind> for WasmImportKind {
    open spec fn obeys_from_spec() -> bool {
        true
    }

    open spec fn from_spec(value: &ExternKind) -> Self {
        import_kind_of(*value)
    }
}

impl From<&ExternKind> for WasmExportKind {
    /// The export kind of the same name as the external kind: a fixed
    /// mapping of five onto five, stated by `from_spec`.
    fn from(value: &ExternKind) -> (kind: Self) {
        match value {
            ExternKind::Func => WasmExportKind::Func,
            ExternKind::Table => WasmExportKind::Table,
            ExternKind::Memory => WasmExportKind::Memory,
            ExternKind::Global => WasmExportKind::Global,
            ExternKind::Tag => WasmExportKind::Tag,
        }
    }
}

impl FromSpecImpl<&ExternKind> for WasmExportKind {
    open spec fn obeys_from_spec() -> bool {
        true
    }

    open spec fn from_spec(value: &ExternKind) -> Self {
        export_kind_of(*value)
    }
}

} // verus!
