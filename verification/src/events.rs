//! The event model of the pipeline.
//!
//! The structural parser turns the input text into an ordered sequence of
//! events; the escaper rewrites the payloads of text runs and code spans and
//! passes every other event through unchanged; the serializer re-emits the
//! events as text. Only the payloads and the code-block boundaries matter to
//! the escaper, so an event is classified into one of five kinds. The events
//! whose payload is never rewritten carry no data here: the serializer pairs
//! each of them positionally with the parser's own event for the same text,
//! so their structural syntax is re-emitted faithfully.

use vstd::prelude::*;

verus! {

/// One structural event of the pipeline, as the escaper sees it.
pub enum MdEvent {
    /// A run of literal text.
    TextRun(String),
    /// An inline code span's content.
    CodeSpan(String),
    /// The opening of a code block.
    CodeBlockStart,
    /// The closing of a code block.
    CodeBlockEnd,
    /// Any other structural event (emphasis, links, list markers, breaks, ...).
    Other,
}

/// The mathematical model of one event: payloads become character sequences.
pub enum EventModel {
    TextRun(Seq<char>),
    CodeSpan(Seq<char>),
    CodeBlockStart,
    CodeBlockEnd,
    Other,
}

impl View for MdEvent {
    type V = EventModel;

    open spec fn view(&self) -> EventModel {
        match self {
            MdEvent::TextRun(s) => EventModel::TextRun(s@),
            MdEvent::CodeSpan(s) => EventModel::CodeSpan(s@),
            MdEvent::CodeBlockStart => EventModel::CodeBlockStart,
            MdEvent::CodeBlockEnd => EventModel::CodeBlockEnd,
            MdEvent::Other => EventModel::Other,
        }
    }
}

} // verus!
