//! The parser's events, as far as this library reads and rewrites them.

use vstd::prelude::*;

verus! {

/// How a code block was written.
#[derive(Clone, Debug, PartialEq, Eq)]
pub enum CodeBlockKind {
    Indented,
    /// A fenced block with its info string (language and attributes).
    Fenced(String),
}

/// One event of the markdown parser. Events that the library passes on
/// unchanged are `Other`.
#[derive(Clone, Debug, PartialEq, Eq)]
pub enum MdEvent {
    CodeBlockStart(CodeBlockKind),
    CodeBlockEnd,
    /// The start of a link, with its destination.
    LinkStart(String),
    /// The start of an image, with its destination.
    ImageStart(String),
    Text(String),
    Html(String),
    Other,
}


/// The mathematical model of an event: its strings as character sequences.
pub enum EventModel {
    /// The start of a code block; the info string of a fenced one.
    CodeBlockStart(Option<Seq<char>>),
    CodeBlockEnd,
    LinkStart(Seq<char>),
    ImageStart(Seq<char>),
    Text(Seq<char>),
    Html(Seq<char>),
    Other,
}

impl View for MdEvent {
    type V = EventModel;

    open spec fn view(&self) -> EventModel {
        match self {
            MdEvent::CodeBlockStart(CodeBlockKind::Indented) => EventModel::CodeBlockStart(None),
            MdEvent::CodeBlockStart(CodeBlockKind::Fenced(info)) => EventModel::CodeBlockStart(
                Some(info@),
            ),
            MdEvent::CodeBlockEnd => EventModel::CodeBlockEnd,
            MdEvent::LinkStart(d) => EventModel::LinkStart(d@),
            MdEvent::ImageStart(d) => EventModel::ImageStart(d@),
            MdEvent::Text(t) => EventModel::Text(t@),
            MdEvent::Html(h) => EventModel::Html(h@),
            MdEvent::Other => EventModel::Other,
        }
    }
}


/// The models of a sequence of events.
pub open spec fn models(v: Seq<MdEvent>) -> Seq<EventModel> {
    v.map_values(|e: MdEvent| e@)
}

} // verus!
