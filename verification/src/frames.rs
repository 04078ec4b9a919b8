//! The framing of a binary as `wasmparser` reports it, and the decoding of
//! its top level into events.

use crate::events::{
    ends_at_failure, events_view, export_items_view, import_items_view,
    section_ends_at_failure, ExportEntry, ExportEntryView, ImportEntry, ImportEntryView,
    ModuleEncoding, ModuleEvent, ModuleEventView,
};
use crate::kinds::ExternKind;
use crate::limits::lengths_fit;
use std::ops::Range;
use vstd::prelude::*;
use vstd::slice::slice_subrange;
use wasmparser::{
    Encoding, Export, ExportSectionReader, ExternalKind, Import, ImportSectionReader, Parser,
    Payload, TypeRef,
};

verus! {

/// One item of the payload stream of a binary, reduced to what a scan reads.
/// Sections are given by the byte range of their contents within the binary.
#[derive(Debug, PartialEq, Eq)]
pub enum Frame {
    /// The header of a core module, with its version number.
    ModuleHeader(u16),
    /// The header of a component, with its version number.
    ComponentHeader(u16),
    /// An import section of a core module.
    ImportSection(Range<usize>),
    /// An export section of a core module.
    ExportSection(Range<usize>),
    /// A nested module or component begins; its own stream follows.
    NestedStart,
    /// The binary, or the nested module or component last begun, ends.
    End,
    /// Any other payload.
    Other,
    /// The framing is broken; nothing follows.
    Malformed,
}

/// The payload stream that `wasmparser` reads from a whole binary, as frames.
pub uninterp spec fn module_frames(bytes: Seq<u8>) -> Seq<Frame>;

/// The items that `wasmparser` reads from the contents of an import section
/// found at `offset`; `None` where not even the item count can be read.
pub uninterp spec fn import_section_items(data: Seq<u8>, offset: usize) -> Option<
    Seq<Option<ImportEntryView>>,
>;

/// The items that `wasmparser` reads from the contents of an export section
/// found at `offset`; `None` where not even the item count can be read.
pub uninterp spec fn export_section_items(data: Seq<u8>, offset: usize) -> Option<
    Seq<Option<ExportEntryView>>,
>;

/// Runs `wasmparser::Parser::parse_all` on `bytes` with a parser made by
/// `Parser::new(0)` and hands out every item of the iterator, in order, as a
/// frame. Trusted: the frames are those that `module_frames` names, each
/// payload is mapped by its variant alone, a section's range is the one its
/// reader reports, and an `Err` item becomes `Frame::Malformed`.
///
/// The parser adds lengths to positions without a test of its own: the
/// declared length of a section, of a function body or of a name to the
/// position behind the LEB128 number that declares it, and the width of a
/// header field to the position of the field. `lengths_fit` keeps each of
/// these sums within `usize`, at whatever offset the parser reads a length;
/// without it a declared length near the top of 32 bits makes the parser
/// panic on a machine with 32-bit words.
#[verifier::external_body]
pub(crate) fn parse_frames(bytes: &[u8]) -> (frames: Vec<Frame>)
    requires
        lengths_fit(bytes@),
    ensures
        frames@ == module_frames(bytes@),
{
    Parser::new(0).parse_all(bytes).map(|item| match item {
        Ok(Payload::Version { num, encoding: Encoding::Module, .. }) => Frame::ModuleHeader(num),
        Ok(Payload::Version { num, encoding: Encoding::Component, .. }) => Frame::ComponentHeader(num),
        Ok(Payload::ImportSection(s)) => Frame::ImportSection(s.range()),
        Ok(Payload::ExportSection(s)) => Frame::ExportSection(s.range()),
        Ok(Payload::ModuleSection { .. }) => Frame::NestedStart,
        Ok(Payload::ComponentSection { .. }) => Frame::NestedStart,
        Ok(Payload::End(_)) => Frame::End,
        Ok(_) => Frame::Other,
        Err(_) => Frame::Malformed,
    }).collect()
}

/// Makes an import section reader with `ImportSectionReader::new` over
/// `data` and drains its iterator. Trusted: the result is what
/// `import_section_items` names; each item that parsed keeps its module, its
/// name and the variant of its type reference, each item that did not is
/// `None`, and the result is `None` where the reader cannot be made. The
/// iterator yields nothing behind an item that did not parse, so only the
/// last item can be `None`. The items are pushed one by one, so that an item
/// count the data does not back up reserves nothing.
#[verifier::external_body]
fn read_import_section(data: &[u8], offset: usize) -> (items: Option<Vec<Option<ImportEntry>>>)
    requires
        offset + data@.len() <= usize::MAX,
    ensures
        match items {
            Some(list) => import_section_items(data@, offset) == Some(import_items_view(list@)),
            None => import_section_items(data@, offset) is None,
        },
        match items {
            Some(list) => ends_at_failure(list@),
            None => true,
        },
{
    let mut items = Vec::new();
    for item in ImportSectionReader::new(data, offset).ok()? {
        items.push(item.ok().map(|i: Import| ImportEntry::new(i.module, i.name, match i.ty {
            TypeRef::Func(_) => ExternKind::Func,
            TypeRef::Table(_) => ExternKind::Table,
            TypeRef::Memory(_) => ExternKind::Memory,
            TypeRef::Global(_) => ExternKind::Global,
            TypeRef::Tag(_) => ExternKind::Tag,
        })));
    }
    Some(items)
}

/// Makes an export section reader with `ExportSectionReader::new` over
/// `data` and drains its iterator. Trusted: the result is what
/// `export_section_items` names; each item that parsed keeps its name, its
/// kind and its index, each item that did not is `None`, and the result is
/// `None` where the reader cannot be made. The iterator yields nothing
/// behind an item that did not parse, so only the last item can be `None`.
/// The items are pushed one by one, so that an item count the data does not
/// back up reserves nothing.
#[verifier::external_body]
fn read_export_section(data: &[u8], offset: usize) -> (items: Option<Vec<Option<ExportEntry>>>)
    requires
        offset + data@.len() <= usize::MAX,
    ensures
        match items {
            Some(list) => export_section_items(data@, offset) == Some(export_items_view(list@)),
            None => export_section_items(data@, offset) is None,
        },
        match items {
            Some(list) => ends_at_failure(list@),
            None => true,
        },
{
    let mut items = Vec::new();
    for item in ExportSectionReader::new(data, offset).ok()? {
        items.push(item.ok().map(|e: Export| ExportEntry::new(e.name, e.index, match e.kind {
            ExternalKind::Func => ExternKind::Func,
            ExternalKind::Table => ExternKind::Table,
            ExternalKind::Memory => ExternKind::Memory,
            ExternalKind::Global => ExternKind::Global,
            ExternalKind::Tag => ExternKind::Tag,
        })));
    }
    Some(items)
}

/// Whether `range` lies within a binary of `len` bytes.
pub open spec fn range_within(range: Range<usize>, len: nat) -> bool {
    range.start <= range.end && range.end <= len
}

/// The event that a frame of the top level stands for. A section becomes
/// the items found in its range of `bytes`; where the range does not lie
/// within `bytes`, or no items can be read from it, the framing is broken.
pub open spec fn frame_event(bytes: Seq<u8>, frame: Frame) -> ModuleEventView {
    match frame {
        Frame::ModuleHeader(num) => ModuleEventView::Version {
            num,
            encoding: ModuleEncoding::Module,
        },
        Frame::ComponentHeader(num) => ModuleEventView::Version {
            num,
            encoding: ModuleEncoding::Component,
        },
        Frame::ImportSection(range) => {
            if range_within(range, bytes.len()) {
                match import_section_items(
                    bytes.subrange(range.start as int, range.end as int),
                    range.start,
                ) {
                    Some(items) => ModuleEventView::ImportSection(items),
                    None => ModuleEventView::Malformed,
                }
            } else {
                ModuleEventView::Malformed
            }
        },
        Frame::ExportSection(range) => {
            if range_within(range, bytes.len()) {
                match export_section_items(
                    bytes.subrange(range.start as int, range.end as int),
                    range.start,
                ) {
                    Some(items) => ModuleEventView::ExportSection(items),
                    None => ModuleEventView::Malformed,
                }
            } else {
                ModuleEventView::Malformed
            }
        },
        Frame::NestedStart => ModuleEventView::Other,
        Frame::End => ModuleEventView::Other,
        Frame::Other => ModuleEventView::Other,
        Frame::Malformed => ModuleEventView::Malformed,
    }
}

/// The events of the top level of a binary whose frames, from some point
/// on, are `frames`, where `depth` nested modules or components are open at
/// that point. Frames inside a nested module or component leave no event;
/// the end of the binary itself and a broken frame both close the list, the
/// broken frame as its last event.
pub open spec fn top_level_events_from(bytes: Seq<u8>, frames: Seq<Frame>, depth: nat) -> Seq<
    ModuleEventView,
>
    decreases frames.len(),
{
    if frames.len() == 0 {
        Seq::empty()
    } else {
        let rest = frames.drop_first();
        match frames.first() {
            Frame::Malformed => seq![ModuleEventView::Malformed],
            Frame::NestedStart => top_level_events_from(bytes, rest, depth + 1),
            Frame::End => if depth == 0 {
                Seq::empty()
            } else {
                top_level_events_from(bytes, rest, (depth - 1) as nat)
            },
            frame => if depth == 0 {
                seq![frame_event(bytes, frame)] + top_level_events_from(bytes, rest, 0)
            } else {
                top_level_events_from(bytes, rest, depth)
            },
        }
    }
}

/// The events of the top level of the binary `bytes` with frames `frames`.
pub open spec fn top_level_events(bytes: Seq<u8>, frames: Seq<Frame>) -> Seq<ModuleEventView> {
    top_level_events_from(bytes, frames, 0)
}

/// Decodes one frame of the top level into its event, reading the items of
/// an import or export section from its range of `bytes`. The items of a
/// section end at the first that does not parse: what the bytes hold behind
/// it is not reached.
pub fn decode_frame(bytes: &[u8], frame: &Frame) -> (event: ModuleEvent)
    ensures
        event@ == frame_event(bytes@, *frame),
        section_ends_at_failure(event@),
{
    match frame {
        Frame::ModuleHeader(num) => ModuleEvent::Version {
            num: *num,
            encoding: ModuleEncoding::Module,
        },
        Frame::ComponentHeader(num) => ModuleEvent::Version {
            num: *num,
            encoding: ModuleEncoding::Component,
        },
        Frame::ImportSection(range) => {
            let start = range.start;
            let end = range.end;
            if start <= end && end <= bytes.len() {
                match read_import_section(slice_subrange(bytes, start, end), start) {
                    Some(items) => {
                        assert forall|i: int| 0 <= i < items@.len() - 1 implies (
                        #[trigger] import_items_view(items@)[i]) is Some by {
                            assert(items@[i] is Some);
                        }
                        ModuleEvent::ImportSection(items)
                    },
                    None => ModuleEvent::Malformed,
                }
            } else {
                ModuleEvent::Malformed
            }
        },
        Frame::ExportSection(range) => {
            let start = range.start;
            let end = range.end;
            if start <= end && end <= bytes.len() {
                match read_export_section(slice_subrange(bytes, start, end), start) {
                    Some(items) => {
                        assert forall|i: int| 0 <= i < items@.len() - 1 implies (
                        #[trigger] export_items_view(items@)[i]) is Some by {
                            assert(items@[i] is Some);
                        }
                        ModuleEvent::ExportSection(items)
                    },
                    None => ModuleEvent::Malformed,
                }
            } else {
                ModuleEvent::Malformed
            }
        },
        Frame::NestedStart => ModuleEvent::Other,
        Frame::End => ModuleEvent::Other,
        Frame::Other => ModuleEvent::Other,
        Frame::Malformed => ModuleEvent::Malformed,
    }
}

/// Walks the frames of a binary and decodes those of its top level, in
/// order. Nested modules and components are passed over without decoding;
/// the walk stops at the end of the binary and at a broken frame.
pub fn decode_events(bytes: &[u8], frames: &Vec<Frame>) -> (events: Vec<ModuleEvent>)
    ensures
        events_view(events@) == top_level_events(bytes@, frames@),
        forall|i: int| 0 <= i < events@.len() ==> section_ends_at_failure(#[trigger] events@[i]@),
{
    let mut events: Vec<ModuleEvent> = Vec::new();
    let mut depth: usize = 0;
    let mut i: usize = 0;
    assert(frames@.skip(0) =~= frames@);
    assert(events_view(events@) =~= Seq::empty());
    while i < frames.len()
        invariant
            depth <= i <= frames.len(),
            forall|k: int| 0 <= k < events@.len() ==> section_ends_at_failure(#[trigger] events@[k]@),
            top_level_events(bytes@, frames@) == events_view(events@) + top_level_events_from(
                bytes@,
                frames@.skip(i as int),
                depth as nat,
            ),
        decreases frames.len() - i,
    {
        let frame = &frames[i];
        let ghost shown = events@;
        proof {
            assert(frames@.skip(i as int).first() == *frame);
            assert(frames@.skip(i as int).drop_first() =~= frames@.skip(i + 1));
        }
        match frame {
            Frame::Malformed => {
                events.push(ModuleEvent::Malformed);
                assert(events_view(events@) =~= events_view(shown) + seq![
                    ModuleEventView::Malformed,
                ]);
                return events;
            },
            Frame::NestedStart => {
                depth += 1;
            },
            Frame::End => {
                if depth == 0 {
                    assert(events_view(events@) + Seq::empty() =~= events_view(events@));
                    return events;
                }
                depth -= 1;
            },
            _ => {
                if depth == 0 {
                    let event = decode_frame(bytes, frame);
                    events.push(event);
                    assert(events_view(events@) =~= events_view(shown) + seq![event@]);
                    assert(events_view(shown) + (seq![event@] + top_level_events_from(
                        bytes@,
                        frames@.skip(i + 1),
                        0,
                    )) =~= events_view(events@) + top_level_events_from(
                        bytes@,
                        frames@.skip(i + 1),
                        0,
                    ));
                }
            },
        }
        i += 1;
    }
    assert(events_view(events@) + Seq::empty() =~= events_view(events@));
    events
}

} // verus!
