//! Reading server-sent events.
//!
//! A stream of server-sent events is text made of lines. A line that holds a
//! field adds to the event that is being received; an empty line ends it.

use crate::text::{
    chars_of, find_first, first_index_of, has_prefix, lemma_first_index_of, parse_unsigned,
    parse_unsigned_range, push_chars, same_text, starts_with, string_of, trim, trim_range,
};
use vstd::prelude::*;

verus! {

/// What a client of an event stream is told.
#[derive(Debug, Eq, PartialEq)]
pub enum ClientEvent {
    /// The connection is open.
    Open,
    /// An event has arrived.
    Message(Message),
}

/// One event of the stream.
#[derive(Debug, Eq, PartialEq)]
pub struct Message {
    pub id: Option<String>,
    pub event: Option<String>,
    pub data: String,
    pub retry: Option<u64>,
}

/// A `Message` as a plain value.
pub struct MessageView {
    pub id: Option<Seq<char>>,
    pub event: Option<Seq<char>>,
    pub data: Seq<char>,
    pub retry: Option<u64>,
}

/// A `ClientEvent` as a plain value.
pub enum ClientEventView {
    Open,
    Message(MessageView),
}

/// The view of an optional string.
pub open spec fn text_view(text: Option<String>) -> Option<Seq<char>> {
    match text {
        Some(t) => Some(t@),
        None => None,
    }
}

impl View for Message {
    type V = MessageView;

    open spec fn view(&self) -> MessageView {
        MessageView {
            id: text_view(self.id),
            event: text_view(self.event),
            data: self.data@,
            retry: self.retry,
        }
    }
}

impl View for ClientEvent {
    type V = ClientEventView;

    open spec fn view(&self) -> ClientEventView {
        match self {
            ClientEvent::Open => ClientEventView::Open,
            ClientEvent::Message(m) => ClientEventView::Message(m@),
        }
    }
}

/// The views of a sequence of events.
pub open spec fn events_view(events: Seq<ClientEvent>) -> Seq<ClientEventView> {
    Seq::new(events.len(), |i: int| events[i]@)
}

/// The event that is being received: the fields seen since the last empty
/// line. `has_data` says whether a data field is among them.
pub struct Pending {
    pub message: MessageView,
    pub has_data: bool,
}

impl Pending {
    /// No field seen yet.
    pub open spec fn fresh() -> Pending {
        Pending {
            message: MessageView { id: None, event: None, data: Seq::empty(), retry: None },
            has_data: false,
        }
    }

    /// An event is handed out when it has a data field, even an empty one,
    /// or an id.
    pub open spec fn dispatches(self) -> bool {
        self.has_data || self.message.id is Some
    }

    /// What an empty line, or the end of the text, hands out.
    pub open spec fn dispatched(self) -> Seq<ClientEventView> {
        if self.dispatches() {
            seq![ClientEventView::Message(self.message)]
        } else {
            Seq::empty()
        }
    }

    /// A data field adds its value to the data; a line feed parts it from
    /// the data of the fields before it.
    pub open spec fn with_data(self, value: Seq<char>) -> Pending {
        Pending {
            message: MessageView {
                data: if self.has_data {
                    self.message.data + seq!['\n'] + value
                } else {
                    value
                },
                ..self.message
            },
            has_data: true,
        }
    }

    /// An id field sets the id to its value without the white space around
    /// it; a later one replaces an earlier one.
    pub open spec fn with_id(self, value: Seq<char>) -> Pending {
        Pending { message: MessageView { id: Some(trim(value)), ..self.message }, ..self }
    }

    /// An event field sets the event's name in the same way.
    pub open spec fn with_event(self, value: Seq<char>) -> Pending {
        Pending { message: MessageView { event: Some(trim(value)), ..self.message }, ..self }
    }

    /// A retry field sets the delay if its value, without the white space
    /// around it, is a decimal number; else it does nothing.
    pub open spec fn with_retry(self, value: Seq<char>) -> Pending {
        match parse_unsigned(trim(value), u64::MAX as nat) {
            Some(delay) => Pending {
                message: MessageView { retry: Some(delay as u64), ..self.message },
                ..self
            },
            None => self,
        }
    }

    /// What the field `key` with `value` does to the event.
    pub open spec fn with_field(self, key: Seq<char>, value: Seq<char>) -> Pending {
        if key == "data"@ {
            self.with_data(value)
        } else if key == "id"@ {
            self.with_id(value)
        } else if key == "event"@ {
            self.with_event(value)
        } else if key == "retry"@ {
            self.with_retry(value)
        } else {
            self
        }
    }

    /// What a line that is not empty does to the event. With a colon in
    /// it, the field's name is what stands before the first colon and its
    /// value what follows the character after that colon. Without a colon,
    /// a line that starts with a field's name is that field, and its value
    /// is what follows the character after the name.
    pub open spec fn with_line(self, line: Seq<char>) -> Pending {
        match first_index_of(line, ':') {
            Some(colon) => self.with_field(line.take(colon), tail(line, colon + 2)),
            None => if has_prefix(line, "data"@) {
                self.with_data(tail(line, 5))
            } else if has_prefix(line, "id"@) {
                self.with_id(tail(line, 3))
            } else if has_prefix(line, "event"@) {
                self.with_event(tail(line, 6))
            } else {
                self
            },
        }
    }
}

/// What is left of `line` from index `from` on: nothing if the line ends
/// before it.
pub open spec fn tail(line: Seq<char>, from: int) -> Seq<char> {
    if from <= line.len() {
        line.skip(from)
    } else {
        Seq::empty()
    }
}

/// A line without the carriage return that may end it.
pub open spec fn without_cr(line: Seq<char>) -> Seq<char> {
    if line.len() > 0 && line.last() == '\r' {
        line.drop_last()
    } else {
        line
    }
}

/// The events that `text` hands out when `pending` is what was received
/// before it. Lines end with a line feed, or a carriage return and a line
/// feed; the last line may do without. An empty line hands out the event
/// received so far and starts a new one; so does the end of the text.
pub open spec fn events_from(pending: Pending, text: Seq<char>) -> Seq<ClientEventView>
    decreases text.len(),
    via events_from_decreases
{
    if text.len() == 0 {
        pending.dispatched()
    } else {
        match first_index_of(text, '\n') {
            Some(end) => {
                let line = without_cr(text.take(end));
                if line.len() == 0 {
                    pending.dispatched() + events_from(Pending::fresh(), text.skip(end + 1))
                } else {
                    events_from(pending.with_line(line), text.skip(end + 1))
                }
            },
            None => pending.with_line(text).dispatched(),
        }
    }
}

#[via_fn]
proof fn events_from_decreases(pending: Pending, text: Seq<char>) {
    lemma_first_index_of(text, '\n');
}

/// The events in a chunk of an event stream.
pub open spec fn events_of(chunk: Seq<char>) -> Seq<ClientEventView> {
    events_from(Pending::fresh(), chunk)
}


/// The event that is being received, as the parser holds it.
struct Receiving {
    message: Message,
    has_data: bool,
}

impl View for Receiving {
    type V = Pending;

    closed spec fn view(&self) -> Pending {
        Pending { message: self.message@, has_data: self.has_data }
    }
}

impl Receiving {
    fn fresh() -> (r: Receiving)
        ensures
            r@ == Pending::fresh(),
    {
        Receiving {
            message: Message { id: None, event: None, data: String::new(), retry: None },
            has_data: false,
        }
    }

    /// Hands the event out if it is one to hand out.
    fn dispatch(self, events: &mut Vec<ClientEvent>)
        ensures
            events_view(final(events)@) == events_view(old(events)@) + self@.dispatched(),
    {
        if self.has_data || self.message.id.is_some() {
            let ghost before = events@;
            let ghost message = self.message@;
            events.push(ClientEvent::Message(self.message));
            assert(events_view(events@) =~= events_view(before) + seq![
                ClientEventView::Message(message),
            ]);
        } else {
            assert(events_view(events@) =~= events_view(events@) + Seq::empty());
        }
    }

    fn add_data(&mut self, chars: &[char], from: usize)
        ensures
            final(self)@ == old(self)@.with_data(tail(chars@, from as int)),
    {
        let len = chars.len();
        let start = if from <= len {
            from
        } else {
            len
        };
        assert(chars@.subrange(start as int, len as int) =~= tail(chars@, from as int));
        if self.has_data {
            self.message.data.push('\n');
            push_chars(&mut self.message.data, chars, start, len);
            assert(old(self)@.message.data.push('\n') + tail(chars@, from as int) =~= old(
                self,
            )@.message.data + seq!['\n'] + tail(chars@, from as int));
        } else {
            self.message.data = string_of(chars, start, len);
            self.has_data = true;
        }
    }

    /// The value of a field without the white space around it.
    fn trimmed(chars: &[char], from: usize) -> (text: String)
        ensures
            text@ == trim(tail(chars@, from as int)),
    {
        let len = chars.len();
        let start = if from <= len {
            from
        } else {
            len
        };
        assert(chars@.subrange(start as int, len as int) =~= tail(chars@, from as int));
        let (a, b) = trim_range(chars, start, len);
        string_of(chars, a, b)
    }

    fn set_retry(&mut self, chars: &[char], from: usize)
        ensures
            final(self)@ == old(self)@.with_retry(tail(chars@, from as int)),
    {
        let len = chars.len();
        let start = if from <= len {
            from
        } else {
            len
        };
        assert(chars@.subrange(start as int, len as int) =~= tail(chars@, from as int));
        let (a, b) = trim_range(chars, start, len);
        match parse_unsigned_range(chars, a, b, u64::MAX) {
            Some(delay) => {
                self.message.retry = Some(delay);
            },
            None => {},
        }
    }

    /// Takes in one line that is not empty.
    fn add_line(&mut self, line: &[char])
        ensures
            final(self)@ == old(self)@.with_line(line@),
    {
        let len = line.len();
        assert(line@.subrange(0, len as int) =~= line@);
        match find_first(line, 0, len, ':') {
            Some(colon) => {
                assert(line@.subrange(0, colon as int) =~= line@.take(colon as int));
                let value = if len - colon >= 2 {
                    colon + 2
                } else {
                    len
                };
                assert(tail(line@, value as int) =~= tail(line@, colon + 2));
                if same_text(line, 0, colon, "data") {
                    self.add_data(line, value);
                } else if same_text(line, 0, colon, "id") {
                    self.message.id = Some(Self::trimmed(line, value));
                } else if same_text(line, 0, colon, "event") {
                    self.message.event = Some(Self::trimmed(line, value));
                } else if same_text(line, 0, colon, "retry") {
                    self.set_retry(line, value);
                }
            },
            None => {
                if starts_with(line, "data") {
                    self.add_data(line, 5);
                } else if starts_with(line, "id") {
                    self.message.id = Some(Self::trimmed(line, 3));
                } else if starts_with(line, "event") {
                    self.message.event = Some(Self::trimmed(line, 6));
                }
            },
        }
    }
}

/// Reads the events in one chunk of an event stream.
///
/// The chunk is read on its own: an event that it does not end with an
/// empty line is handed out at its end, and nothing is kept for the next
/// chunk.
pub fn parse_sse_chunk(chunk: &str) -> (events: Vec<ClientEvent>)
    ensures
        events_view(events@) == events_of(chunk@),
{
    let chars = chars_of(chunk);
    let len = chars.len();
    let mut events: Vec<ClientEvent> = Vec::new();
    let mut current = Receiving::fresh();
    let mut start: usize = 0;
    assert(events_view(events@) =~= Seq::empty());
    assert(chars@.skip(0) =~= chars@);
    assert(Seq::<ClientEventView>::empty() + events_of(chunk@) =~= events_of(chunk@));
    while start < len
        invariant
            start <= len == chars@.len(),
            chars@ == chunk@,
            events_of(chunk@) == events_view(events@) + events_from(
                current@,
                chars@.skip(start as int),
            ),
        decreases len - start,
    {
        let ghost rest = chars@.skip(start as int);
        let ghost before = events_view(events@);
        assert(chars@.subrange(start as int, len as int) =~= rest);
        match find_first(chars.as_slice(), start, len, '\n') {
            Some(offset) => {
                let end = start + offset;
                let stop = if end > start && chars[end - 1] == '\r' {
                    end - 1
                } else {
                    end
                };
                let line = vstd::slice::slice_subrange(chars.as_slice(), start, stop);
                assert(rest.take(offset as int) =~= chars@.subrange(start as int, end as int));
                assert(line@ =~= without_cr(rest.take(offset as int)));
                assert(rest.skip(offset + 1) =~= chars@.skip(end + 1));
                if stop == start {
                    let ghost handed = current@.dispatched();
                    let ghost later = events_from(Pending::fresh(), chars@.skip(end + 1));
                    assert(events_from(current@, rest) == handed + later);
                    current.dispatch(&mut events);
                    current = Receiving::fresh();
                    assert(before + (handed + later) =~= (before + handed) + later);
                } else {
                    current.add_line(line);
                }
                start = end + 1;
            },
            None => {
                let line = vstd::slice::slice_subrange(chars.as_slice(), start, len);
                current.add_line(line);
                start = len;
                assert(chars@.skip(len as int) =~= Seq::empty());
            },
        }
    }
    assert(chars@.skip(start as int).len() == 0);
    current.dispatch(&mut events);
    events
}

} // verus!
