//! The scan itself: from the bytes of a binary to its records and to their
//! text.

use crate::events::{collect_records, scan_records};
use crate::frames::{decode_events, module_frames, parse_frames, top_level_events};
use crate::json::{empty_result_text, records_text, render_records};
use crate::limits::{check_lengths, lengths_fit};
use crate::records::{payloads_view, PayloadRecord, WasmPayload};
use vstd::prelude::*;
use vstd::string::StringExecFns;

verus! {

/// The records of the binary `bytes`: those of the events of its top level,
/// or `None` where its framing is broken. A binary that declares a length
/// which runs over the words of this machine counts as broken, unparsed.
pub open spec fn module_records(bytes: Seq<u8>) -> Option<Seq<PayloadRecord>> {
    if lengths_fit(bytes) {
        scan_records(top_level_events(bytes, module_frames(bytes)))
    } else {
        None
    }
}

/// The text of a scan of `bytes`: the JSON array of its records, and the
/// empty array where the scan has none to give.
pub open spec fn module_text(bytes: Seq<u8>) -> Seq<char> {
    match module_records(bytes) {
        Some(records) => records_text(records),
        None => empty_result_text(),
    }
}

/// Scans a binary for its header, imports and exports, in file order. Any
/// byte sequence is accepted. `None` says that the framing of the binary is
/// broken somewhere, in which case nothing of it is reported; an import or
/// export item that does not parse is only left out. The lengths that the
/// bytes could declare are held against the word size of the machine first,
/// so that the parser is never handed a binary it cannot walk.
pub fn scan_module(bytecode: &[u8]) -> (records: Option<Vec<WasmPayload>>)
    ensures
        match records {
            Some(list) => module_records(bytecode@) == Some(payloads_view(list@)),
            None => module_records(bytecode@) is None,
        },
{
    if !check_lengths(bytecode) {
        return None;
    }
    let frames = parse_frames(bytecode);
    let events = decode_events(bytecode, &frames);
    collect_records(&events)
}

/// Scans a binary and renders what was found as a JSON array of tagged
/// objects. A binary whose scan gives nothing has the empty array `[]`.
pub fn read_wasm(bytecode: &[u8]) -> (text: String)
    ensures
        text@ == module_text(bytecode@),
{
    match scan_module(bytecode) {
        Some(records) => render_records(&records),
        None => String::from_str("[]"),
    }
}

} // verus!
