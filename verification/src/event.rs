//! Lifecycle events and their form on the wire.

use crate::foreign::{json_quote, json_quoted};
use crate::text::slice_text_of;
use vstd::prelude::*;

verus! {

/// What happened to the supervised application or to its build.
#[derive(Debug, PartialEq, Eq)]
pub enum Event {
    /// The compiled artifact was replaced on disk.
    BinaryChanged,
    /// A watched source path changed.
    Rebuild,
    /// The child process was relaunched.
    Restarted,
    /// The build tool exited with success.
    BuildSuccess,
    /// The build tool failed; `error` is its output, ready for display.
    CompileError { error: String },
}

/// An [`Event`] as a mathematical value.
pub ghost enum EventView {
    BinaryChanged,
    Rebuild,
    Restarted,
    BuildSuccess,
    CompileError { error: Seq<char> },
}

impl View for Event {
    type V = EventView;

    open spec fn view(&self) -> EventView {
        match self {
            Event::BinaryChanged => EventView::BinaryChanged,
            Event::Rebuild => EventView::Rebuild,
            Event::Restarted => EventView::Restarted,
            Event::BuildSuccess => EventView::BuildSuccess,
            Event::CompileError { error } => EventView::CompileError { error: error@ },
        }
    }
}

/// The views of a sequence of events, in order.
pub open spec fn views(events: Seq<Event>) -> Seq<EventView> {
    events.map_values(|e: Event| e@)
}

/// The value of the `type` discriminator of an event.
pub open spec fn kind_of(event: EventView) -> Seq<char> {
    match event {
        EventView::BinaryChanged => "BinaryChanged"@,
        EventView::Rebuild => "Rebuild"@,
        EventView::Restarted => "Restarted"@,
        EventView::BuildSuccess => "BuildSuccess"@,
        EventView::CompileError { .. } => "CompileError"@,
    }
}

/// A message of the event stream: a JSON object whose first member, `type`,
/// names the case of the event. A compile error adds the member `error`;
/// `error` is then the JSON string literal of its text.
pub open spec fn frame_spec(kind: Seq<char>, error: Option<Seq<char>>) -> Seq<char> {
    match error {
        Some(literal) => "{\"type\":\""@ + kind + "\",\"error\":"@ + literal + "}"@,
        None => "{\"type\":\""@ + kind + "\"}"@,
    }
}

/// The message that carries an event to a client.
pub open spec fn message_of(event: EventView) -> Seq<char> {
    frame_spec(
        kind_of(event),
        match event {
            EventView::CompileError { error } => Some(json_quoted(error)),
            _ => None,
        },
    )
}

/// Puts a message of the event stream together. `kind` names the case of
/// the event; `error` is the JSON string literal of a compile error's text.
pub fn frame(kind: &str, error: Option<&str>) -> (r: String)
    ensures
        r@ == frame_spec(kind@, slice_text_of(error)),
{
    let mut out = "{\"type\":\"".to_owned();
    out.append(kind);
    match error {
        Some(literal) => {
            out.append("\",\"error\":");
            out.append(literal);
            out.append("}");
        },
        None => {
            out.append("\"}");
        },
    }
    out
}

impl Clone for Event {
    fn clone(&self) -> (r: Event)
        ensures
            r == *self,
    {
        match self {
            Event::BinaryChanged => Event::BinaryChanged,
            Event::Rebuild => Event::Rebuild,
            Event::Restarted => Event::Restarted,
            Event::BuildSuccess => Event::BuildSuccess,
            Event::CompileError { error } => Event::CompileError { error: error.clone() },
        }
    }
}

impl Event {
    /// The name of the event's case, as the `type` member carries it.
    pub fn kind(&self) -> (r: &'static str)
        ensures
            r@ == kind_of(self@),
    {
        match self {
            Event::BinaryChanged => "BinaryChanged",
            Event::Rebuild => "Rebuild",
            Event::Restarted => "Restarted",
            Event::BuildSuccess => "BuildSuccess",
            Event::CompileError { .. } => "CompileError",
        }
    }

    /// The event as one structured message for the event stream.
    pub fn to_json(&self) -> (r: String)
        ensures
            r@ == message_of(self@),
    {
        match self {
            Event::CompileError { error } => {
                let quoted = json_quote(error.as_str());
                frame(self.kind(), Some(quoted.as_str()))
            },
            _ => frame(self.kind(), None),
        }
    }
}

} // verus!
