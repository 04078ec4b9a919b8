//! The wire format of a scan: a compact JSON array with one object for each
//! record, tagged by `type`.

use crate::kinds::{WasmExportKind, WasmImportKind};
use crate::records::{payloads_view, PayloadRecord, WasmPayload};
use vstd::prelude::*;
use vstd::string::StringExecFns;

verus! {

/// The JSON string literal, quotes and escapes included, that `serde_json`
/// writes for a text.
pub uninterp spec fn json_string_literal(text: Seq<char>) -> Seq<char>;

/// Calls `serde_json::to_string` on a `str`. Trusted: the call succeeds and
/// gives what `json_string_literal` names. It cannot fail on a `str`: the
/// serializer writes into a `Vec`, which takes every write, and a `str`
/// serializes as one string and nothing else.
#[verifier::external_body]
fn json_string(text: &str) -> (literal: Option<String>)
    ensures
        match literal {
            Some(l) => l@ == json_string_literal(text@),
            None => false,
        },
{
    serde_json::to_string(text).ok()
}

/// The decimal digit for a value below ten.
pub open spec fn digit_char(d: nat) -> char {
    if d == 0 {
        '0'
    } else if d == 1 {
        '1'
    } else if d == 2 {
        '2'
    } else if d == 3 {
        '3'
    } else if d == 4 {
        '4'
    } else if d == 5 {
        '5'
    } else if d == 6 {
        '6'
    } else if d == 7 {
        '7'
    } else if d == 8 {
        '8'
    } else {
        '9'
    }
}

/// A number in decimal, without sign or leading zeros.
pub open spec fn decimal_text(n: nat) -> Seq<char>
    decreases n,
{
    if n < 10 {
        seq![digit_char(n)]
    } else {
        decimal_text(n / 10).push(digit_char(n % 10))
    }
}

/// A truth value as JSON writes it.
pub open spec fn bool_text(b: bool) -> Seq<char> {
    if b {
        "true"@
    } else {
        "false"@
    }
}

/// An import kind as a JSON string.
pub open spec fn import_kind_text(kind: WasmImportKind) -> Seq<char> {
    match kind {
        WasmImportKind::Func => "\"Func\""@,
        WasmImportKind::Table => "\"Table\""@,
        WasmImportKind::Memory => "\"Memory\""@,
        WasmImportKind::Global => "\"Global\""@,
        WasmImportKind::Tag => "\"Tag\""@,
    }
}

/// An export kind as a JSON string.
pub open spec fn export_kind_text(kind: WasmExportKind) -> Seq<char> {
    match kind {
        WasmExportKind::Func => "\"Func\""@,
        WasmExportKind::Table => "\"Table\""@,
        WasmExportKind::Memory => "\"Memory\""@,
        WasmExportKind::Global => "\"Global\""@,
        WasmExportKind::Tag => "\"Tag\""@,
    }
}

/// The JSON object of a header record.
pub open spec fn version_object_text(num: u16, is_module: bool) -> Seq<char> {
    "{\"type\":\"Version\",\"num\":"@ + decimal_text(num as nat) + ",\"is_module\":"@ + bool_text(
        is_module,
    ) + "}"@
}

/// The JSON object of an import record whose module and name are already
/// written as string literals.
pub open spec fn import_object_text(
    module_literal: Seq<char>,
    name_literal: Seq<char>,
    kind: WasmImportKind,
) -> Seq<char> {
    "{\"type\":\"Import\",\"module\":"@ + module_literal + ",\"name\":"@ + name_literal
        + ",\"kind\":"@ + import_kind_text(kind) + "}"@
}

/// The JSON object of an export record whose name is already written as a
/// string literal.
pub open spec fn export_object_text(
    name_literal: Seq<char>,
    kind: WasmExportKind,
    index: u32,
) -> Seq<char> {
    "{\"type\":\"Export\",\"name\":"@ + name_literal + ",\"kind\":"@ + export_kind_text(kind)
        + ",\"index\":"@ + decimal_text(index as nat) + "}"@
}

/// The JSON object of one record: the tag first, then the fields in their
/// fixed order, each text as its string literal.
pub open spec fn record_text(record: PayloadRecord) -> Seq<char> {
    match record {
        PayloadRecord::Version { num, is_module } => version_object_text(num, is_module),
        PayloadRecord::Import { module, name, kind } => import_object_text(
            json_string_literal(module),
            json_string_literal(name),
            kind,
        ),
        PayloadRecord::Export { name, kind, index } => export_object_text(
            json_string_literal(name),
            kind,
            index,
        ),
    }
}

/// The objects of a list of records in order, with a comma between each two.
pub open spec fn records_body(records: Seq<PayloadRecord>) -> Seq<char>
    decreases records.len(),
{
    if records.len() == 0 {
        Seq::empty()
    } else if records.len() == 1 {
        record_text(records.last())
    } else {
        records_body(records.drop_last()) + ","@ + record_text(records.last())
    }
}

/// The JSON array of a list of records.
pub open spec fn records_text(records: Seq<PayloadRecord>) -> Seq<char> {
    "["@ + records_body(records) + "]"@
}

/// The text of a scan that yielded nothing: the empty array.
pub open spec fn empty_result_text() -> Seq<char> {
    "[]"@
}

fn digit_str(d: u32) -> (text: &'static str)
    requires
        d < 10,
    ensures
        text@ == seq![digit_char(d as nat)],
{
    proof {
        reveal_strlit("0");
        reveal_strlit("1");
        reveal_strlit("2");
        reveal_strlit("3");
        reveal_strlit("4");
        reveal_strlit("5");
        reveal_strlit("6");
        reveal_strlit("7");
        reveal_strlit("8");
        reveal_strlit("9");
    }
    let text = if d == 0 {
        "0"
    } else if d == 1 {
        "1"
    } else if d == 2 {
        "2"
    } else if d == 3 {
        "3"
    } else if d == 4 {
        "4"
    } else if d == 5 {
        "5"
    } else if d == 6 {
        "6"
    } else if d == 7 {
        "7"
    } else if d == 8 {
        "8"
    } else {
        "9"
    };
    assert(text@ =~= seq![digit_char(d as nat)]);
    text
}

/// Appends a number in decimal to `out`.
pub fn push_decimal(out: &mut String, n: u32)
    ensures
        final(out)@ == old(out)@ + decimal_text(n as nat),
    decreases n,
{
    if n >= 10 {
        push_decimal(out, n / 10);
    }
    out.append(digit_str(n % 10));
    assert(out@ =~= old(out)@ + decimal_text(n as nat));
}

fn import_kind_str(kind: WasmImportKind) -> (text: &'static str)
    ensures
        text@ == import_kind_text(kind),
{
    match kind {
        WasmImportKind::Func => "\"Func\"",
        WasmImportKind::Table => "\"Table\"",
        WasmImportKind::Memory => "\"Memory\"",
        WasmImportKind::Global => "\"Global\"",
        WasmImportKind::Tag => "\"Tag\"",
    }
}

fn export_kind_str(kind: WasmExportKind) -> (text: &'static str)
    ensures
        text@ == export_kind_text(kind),
{
    match kind {
        WasmExportKind::Func => "\"Func\"",
        WasmExportKind::Table => "\"Table\"",
        WasmExportKind::Memory => "\"Memory\"",
        WasmExportKind::Global => "\"Global\"",
        WasmExportKind::Tag => "\"Tag\"",
    }
}

/// Writes the JSON object of a header record.
pub fn version_object(num: u16, is_module: bool) -> (text: String)
    ensures
        text@ == version_object_text(num, is_module),
{
    let mut out = String::new();
    out.append("{\"type\":\"Version\",\"num\":");
    push_decimal(&mut out, num as u32);
    out.append(",\"is_module\":");
    out.append(if is_module { "true" } else { "false" });
    out.append("}");
    assert(out@ =~= version_object_text(num, is_module));
    out
}

/// Writes the JSON object of an import record from the string literals of
/// its module and its name, which go in as they are.
pub fn import_object(module_literal: &str, name_literal: &str, kind: WasmImportKind) -> (text:
    String)
    ensures
        text@ == import_object_text(module_literal@, name_literal@, kind),
{
    let mut out = String::new();
    out.append("{\"type\":\"Import\",\"module\":");
    out.append(module_literal);
    out.append(",\"name\":");
    out.append(name_literal);
    out.append(",\"kind\":");
    out.append(import_kind_str(kind));
    out.append("}");
    assert(out@ =~= import_object_text(module_literal@, name_literal@, kind));
    out
}

/// Writes the JSON object of an export record from the string literal of
/// its name, which goes in as it is.
pub fn export_object(name_literal: &str, kind: WasmExportKind, index: u32) -> (text: String)
    ensures
        text@ == export_object_text(name_literal@, kind, index),
{
    let mut out = String::new();
    out.append("{\"type\":\"Export\",\"name\":");
    out.append(name_literal);
    out.append(",\"kind\":");
    out.append(export_kind_str(kind));
    out.append(",\"index\":");
    push_decimal(&mut out, index);
    out.append("}");
    assert(out@ =~= export_object_text(name_literal@, kind, index));
    out
}

/// Renders one record as its JSON object.
pub fn render_record(record: &WasmPayload) -> (text: String)
    ensures
        text@ == record_text(record@),
{
    match record {
        WasmPayload::Version(v) => version_object(v.num, v.is_module),
        WasmPayload::Import(i) => {
            let module = json_string(i.module.as_str()).unwrap();
            let name = json_string(i.name.as_str()).unwrap();
            import_object(module.as_str(), name.as_str(), i.kind)
        },
        WasmPayload::Export(e) => {
            let name = json_string(e.name.as_str()).unwrap();
            export_object(name.as_str(), e.kind, e.index)
        },
    }
}

/// Renders a list of records as a JSON array, in order.
pub fn render_records(records: &Vec<WasmPayload>) -> (text: String)
    ensures
        text@ == records_text(payloads_view(records@)),
{
    let ghost model = payloads_view(records@);
    let mut out = String::new();
    out.append("[");
    let mut i: usize = 0;
    assert(model.take(0) =~= Seq::empty());
    while i < records.len()
        invariant
            i <= records.len(),
            model == payloads_view(records@),
            out@ == "["@ + records_body(model.take(i as int)),
        decreases records.len() - i,
    {
        proof {
            assert(model.take(i + 1).drop_last() =~= model.take(i as int));
            assert(model.take(i + 1).last() == records@[i as int]@);
        }
        let object = render_record(&records[i]);
        if i > 0 {
            out.append(",");
        }
        out.append(object.as_str());
        assert(out@ =~= "["@ + records_body(model.take(i + 1)));
        i += 1;
    }
    assert(model.take(records.len() as int) =~= model);
    out.append("]");
    out
}

} // verus!
