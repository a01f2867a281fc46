//! Following the log as it grows.
//!
//! The caller reads what was added to the file since the last time and hands
//! it to [`LogTailer::poll`] with the state of the pause switch. While the
//! switch is on, everything that comes is kept; as soon as it is off, all
//! that was kept is read as one batch, in the order in which it came.

use vstd::prelude::*;
use crate::parsing::{event_views, events_of, parse_lines, LineEvent, ParsedLine};
use crate::text::{lines, split_lines};

verus! {

/// The text that the decoder for UTF-8 of the `encoding` crate makes of some
/// bytes when it is told to pass over what is malformed.
pub uninterp spec fn decoded(bytes: Seq<u8>) -> Seq<char>;

/// `encoding::Encoding::decode` for `UTF_8` with `DecoderTrap::Ignore`. With
/// that trap the decoder goes on after every malformed sequence and leaves it
/// out, so that it reports no error and the first arm is always taken. The
/// contract only gives the text its name.
#[verifier::external_body]
pub(crate) fn decode(bytes: &[u8]) -> (text: String)
    ensures
        text@ == decoded(bytes@),
{
    match encoding::Encoding::decode(encoding::all::UTF_8, bytes, encoding::DecoderTrap::Ignore) {
        Ok(text) => text,
        Err(cause) => cause.into_owned(),
    }
}

/// What the caller has to do after a poll.
#[derive(Debug)]
pub enum TailAction {
    /// Nothing is to be read now: sleep for [`SLEEP_DURATION`] and poll again.
    Wait,
    /// Apply these events, in their order, and poll again.
    Process { events: Vec<ParsedLine> },
}

/// The mathematical value of a [`TailAction`].
pub enum ActionView {
    Wait,
    Process { events: Seq<LineEvent> },
}

impl View for TailAction {
    type V = ActionView;

    open spec fn view(&self) -> ActionView {
        match self {
            TailAction::Wait => ActionView::Wait,
            TailAction::Process { events } => ActionView::Process { events: event_views(events@) },
        }
    }
}

/// The pause between two polls that found nothing to do, in milliseconds.
pub const SLEEP_DURATION: u64 = 100;

/// The events that a text holds, line by line.
pub open spec fn text_events(text: Seq<char>) -> Seq<LineEvent> {
    events_of(lines(text))
}

/// What is kept after a poll: everything while the pause switch is on,
/// nothing once it is off.
pub open spec fn kept_after(pending: Seq<u8>, fresh: Seq<u8>, paused: bool) -> Seq<u8> {
    if paused {
        pending + fresh
    } else {
        Seq::empty()
    }
}

/// What a poll asks of the caller: to wait while the pause switch is on or
/// there is nothing to read, else to apply the events of all that was kept
/// and all that is new.
pub open spec fn action_after(pending: Seq<u8>, fresh: Seq<u8>, paused: bool) -> ActionView {
    if paused || (pending + fresh).len() == 0 {
        ActionView::Wait
    } else {
        ActionView::Process { events: text_events(decoded(pending + fresh)) }
    }
}

/// What is kept after a run of polls that all found the pause switch on.
pub open spec fn kept_after_pause(pending: Seq<u8>, chunks: Seq<Seq<u8>>) -> Seq<u8>
    decreases chunks.len(),
{
    if chunks.len() == 0 {
        pending
    } else {
        kept_after_pause(kept_after(pending, chunks.first(), true), chunks.drop_first())
    }
}

/// The chunks put together, in their order.
pub open spec fn glued(chunks: Seq<Seq<u8>>) -> Seq<u8>
    decreases chunks.len(),
{
    if chunks.len() == 0 {
        Seq::empty()
    } else {
        chunks.first() + glued(chunks.drop_first())
    }
}

/// The bytes of the log that were read and not yet turned into events.
pub struct LogTailer {
    pending: Vec<u8>,
}

impl View for LogTailer {
    type V = Seq<u8>;

    closed spec fn view(&self) -> Seq<u8> {
        self.pending@
    }
}

impl LogTailer {
    /// A tailer that keeps nothing yet.
    pub fn new() -> (tailer: LogTailer)
        ensures
            tailer@ == Seq::<u8>::empty(),
    {
        LogTailer { pending: Vec::new() }
    }

    /// The number of bytes that are kept.
    pub fn pending_len(&self) -> (n: usize)
        ensures
            n == self@.len(),
    {
        self.pending.len()
    }

    /// Takes in what was read from the log since the last poll, which may be
    /// nothing, and decides what happens next.
    pub fn poll(&mut self, fresh: Vec<u8>, paused: bool) -> (action: TailAction)
        ensures
            final(self)@ == kept_after(old(self)@, fresh@, paused),
            action@ == action_after(old(self)@, fresh@, paused),
    {
        let mut fresh = fresh;
        self.pending.append(&mut fresh);
        if paused || self.pending.len() == 0 {
            if !paused {
                assert(self.pending@ =~= Seq::<u8>::empty());
            }
            return TailAction::Wait;
        }
        let text = decode(self.pending.as_slice());
        self.pending.clear();
        TailAction::Process { events: events_in(text.as_str()) }
    }
}

/// The events of a text that was decoded from the log, line by line.
pub fn events_in(text: &str) -> (events: Vec<ParsedLine>)
    ensures
        event_views(events@) == text_events(text@),
{
    let lines = split_lines(text);
    parse_lines(&lines)
}

/// Nothing is lost while the pause switch is on: after any run of paused
/// polls all that came is kept, in the order in which it came, and the first
/// poll that finds the switch off reads the events of all of it together with
/// what that poll brings.
pub proof fn lemma_pause_keeps_everything(pending: Seq<u8>, chunks: Seq<Seq<u8>>, fresh: Seq<u8>)
    ensures
        kept_after_pause(pending, chunks) == pending + glued(chunks),
        (pending + glued(chunks) + fresh).len() > 0 ==> action_after(
            kept_after_pause(pending, chunks),
            fresh,
            false,
        ) == (ActionView::Process {
            events: text_events(decoded(pending + glued(chunks) + fresh)),
        }),
        kept_after(kept_after_pause(pending, chunks), fresh, false) == Seq::<u8>::empty(),
    decreases chunks.len(),
{
    if chunks.len() == 0 {
        assert(pending + glued(chunks) =~= pending);
    } else {
        lemma_pause_keeps_everything(pending + chunks.first(), chunks.drop_first(), fresh);
        assert((pending + chunks.first()) + glued(chunks.drop_first()) =~= pending + glued(chunks));
    }
}

} // verus!
