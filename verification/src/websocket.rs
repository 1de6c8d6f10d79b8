//! Watching one invoice: a polled store is turned into a stream of changes
//! that ends when the invoice reaches a terminal status.
//!
//! The watcher itself neither sleeps nor talks to anyone. Its caller reads
//! the store, hands each outcome to [`advance`], sends what comes back, and
//! waits [`POLL_SECONDS`] before the next read for as long as the stream is
//! not terminated.

use vstd::prelude::*;
use crate::invoice::{InvoiceError, InvoiceStatus};

verus! {

/// Seconds between two reads of the store.
pub const POLL_SECONDS: u64 = 1;

/// What a watcher is sent, as a mathematical value.
pub enum Push {
    /// The invoice's status, as stored.
    Status(Seq<char>),
    /// The invoice had no status when the stream was opened.
    NotFound,
    /// The stream broke off: the store failed or held an unknown status.
    Failure,
}

/// Where a stream stands, as a mathematical value.
pub enum Watch {
    /// Nothing has been read yet.
    Connecting,
    /// The watcher was last sent this status.
    Watching(Seq<char>),
    /// The stream is over.
    Terminated,
}

/// What happened since the last step, as a mathematical value.
pub enum Happening {
    /// The store was read, with this outcome.
    Read(Result<Seq<char>, InvoiceError>),
    /// A message could not be delivered: the watcher is gone.
    Disconnected,
}

/// Whether a stored status is one of the two that end an invoice's life.
pub open spec fn ends_stream(status: Seq<char>) -> bool {
    match InvoiceStatus::parse(status) {
        Some(known) => known.terminal(),
        None => false,
    }
}

/// The stream's rules: the state after `event`, and what is sent because of it.
pub open spec fn step(state: Watch, event: Happening) -> (Watch, Seq<Push>) {
    match (state, event) {
        (Watch::Terminated, _) => (Watch::Terminated, Seq::empty()),
        (_, Happening::Disconnected) => (Watch::Terminated, Seq::empty()),
        (Watch::Connecting, Happening::Read(Err(_))) => (Watch::Terminated, seq![Push::NotFound]),
        (Watch::Connecting, Happening::Read(Ok(status))) => if ends_stream(status) {
            (Watch::Terminated, seq![Push::Status(status)])
        } else {
            (Watch::Watching(status), seq![Push::Status(status)])
        },
        (Watch::Watching(_), Happening::Read(Err(_))) => (Watch::Terminated, seq![Push::Failure]),
        (Watch::Watching(last), Happening::Read(Ok(status))) => if status == last {
            (Watch::Watching(last), Seq::empty())
        } else {
            match InvoiceStatus::parse(status) {
                Some(known) => if known.terminal() {
                    (Watch::Terminated, seq![Push::Status(status)])
                } else {
                    (Watch::Watching(status), seq![Push::Status(status)])
                },
                None => (Watch::Terminated, seq![Push::Status(status), Push::Failure]),
            }
        },
    }
}

/// Everything sent while `events` happen one after another, from `state` on.
pub open spec fn pushed(state: Watch, events: Seq<Happening>) -> Seq<Push>
    decreases events.len(),
{
    if events.len() == 0 {
        Seq::empty()
    } else {
        let (next, sent) = step(state, events.first());
        sent + pushed(next, events.drop_first())
    }
}

/// The state reached when `events` have happened one after another, from `state` on.
pub open spec fn reached(state: Watch, events: Seq<Happening>) -> Watch
    decreases events.len(),
{
    if events.len() == 0 {
        state
    } else {
        reached(step(state, events.first()).0, events.drop_first())
    }
}

/// Events that happen one after another count as they would one by one.
pub proof fn lemma_events_compose(state: Watch, before: Seq<Happening>, after: Seq<Happening>)
    ensures
        pushed(state, before + after) == pushed(state, before) + pushed(
            reached(state, before),
            after,
        ),
        reached(state, before + after) == reached(reached(state, before), after),
    decreases before.len(),
{
    if before.len() == 0 {
        assert(before + after =~= after);
        assert(pushed(state, before) + pushed(state, after) =~= pushed(state, after));
    } else {
        let all = before + after;
        assert(all.first() == before.first());
        assert(all.drop_first() =~= before.drop_first() + after);
        let next = step(state, before.first()).0;
        lemma_events_compose(next, before.drop_first(), after);
        assert(pushed(state, all) =~= pushed(state, before) + pushed(
            reached(state, before),
            after,
        ));
    }
}

/// A stream that is over stays over and sends nothing, whatever happens.
pub proof fn lemma_terminated_is_silent(events: Seq<Happening>)
    ensures
        pushed(Watch::Terminated, events) == Seq::<Push>::empty(),
        reached(Watch::Terminated, events) == Watch::Terminated,
    decreases events.len(),
{
    if events.len() > 0 {
        lemma_terminated_is_silent(events.drop_first());
        assert(pushed(Watch::Terminated, events) =~= Seq::<Push>::empty());
    }
}

/// Reading the status that was last sent, any number of times, sends
/// nothing and changes nothing.
pub proof fn lemma_unchanged_is_silent(last: Seq<char>, events: Seq<Happening>)
    requires
        forall|i: int| 0 <= i < events.len() ==> (#[trigger] events[i]) == Happening::Read(Ok(last)),
    ensures
        pushed(Watch::Watching(last), events) == Seq::<Push>::empty(),
        reached(Watch::Watching(last), events) == Watch::Watching(last),
    decreases events.len(),
{
    if events.len() > 0 {
        assert(events.first() == events[0]);
        let rest = events.drop_first();
        assert forall|i: int| 0 <= i < rest.len() implies (#[trigger] rest[i]) == Happening::Read(
            Ok(last),
        ) by {
            assert(rest[i] == events[i + 1]);
        }
        lemma_unchanged_is_silent(last, rest);
        assert(pushed(Watch::Watching(last), events) =~= Seq::<Push>::empty());
    }
}

/// Every status that is sent differs from the one sent before it, and a
/// stream goes on only after a status that does not end it: whatever step is
/// taken from a watching stream, a status in what is sent is a new one, and
/// the stream is then either over or watching that very status.
pub proof fn lemma_only_changes_are_sent(last: Seq<char>, event: Happening)
    ensures
        forall|i: int|
            #![trigger step(Watch::Watching(last), event).1[i]]
            0 <= i < step(Watch::Watching(last), event).1.len() ==> match step(
                Watch::Watching(last),
                event,
            ).1[i] {
                Push::Status(status) => status != last && event == Happening::Read(Ok(status)),
                Push::NotFound => false,
                Push::Failure => true,
            },
        match step(Watch::Watching(last), event).0 {
            Watch::Watching(now) => now == last || (event == Happening::Read(Ok(now))
                && !ends_stream(now) && InvoiceStatus::parse(now) is Some),
            Watch::Terminated => true,
            Watch::Connecting => false,
        },
{
}

/// The whole of a watch that ends well: the stream opens on a status that
/// does not end it, reads that status again any number of times, then reads a
/// terminal status. The watcher is sent the first status once and the
/// terminal one once, and nothing more whatever happens afterwards.
pub proof fn lemma_watch_to_the_end(
    first: Seq<char>,
    repeats: Seq<Happening>,
    last: Seq<char>,
    afterwards: Seq<Happening>,
)
    requires
        !ends_stream(first),
        ends_stream(last),
        forall|i: int|
            0 <= i < repeats.len() ==> (#[trigger] repeats[i]) == Happening::Read(Ok(first)),
    ensures
        pushed(
            Watch::Connecting,
            seq![Happening::Read(Ok(first))] + repeats + seq![Happening::Read(Ok(last))]
                + afterwards,
        ) == seq![Push::Status(first), Push::Status(last)],
        reached(
            Watch::Connecting,
            seq![Happening::Read(Ok(first))] + repeats + seq![Happening::Read(Ok(last))]
                + afterwards,
        ) == Watch::Terminated,
{
    let opening = seq![Happening::Read(Ok(first))];
    let closing = seq![Happening::Read(Ok(last))];
    lemma_one_event(Watch::Connecting, Happening::Read(Ok(first)));
    lemma_unchanged_is_silent(first, repeats);
    lemma_one_event(Watch::Watching(first), Happening::Read(Ok(last)));
    lemma_terminated_is_silent(afterwards);
    lemma_events_compose(Watch::Connecting, opening, repeats);
    lemma_events_compose(Watch::Connecting, opening + repeats, closing);
    lemma_events_compose(Watch::Connecting, opening + repeats + closing, afterwards);
    assert(pushed(Watch::Connecting, opening + repeats + closing + afterwards) =~= seq![
        Push::Status(first),
        Push::Status(last),
    ]);
}

/// A watch that meets an unknown status: after the opening status and any
/// number of unchanged reads, a status that is none of the four is sent on
/// and followed by one failure message; the stream is then over and silent.
pub proof fn lemma_unknown_status_breaks_off(
    first: Seq<char>,
    repeats: Seq<Happening>,
    unknown: Seq<char>,
    afterwards: Seq<Happening>,
)
    requires
        !ends_stream(first),
        unknown != first,
        InvoiceStatus::parse(unknown) is None,
        forall|i: int|
            0 <= i < repeats.len() ==> (#[trigger] repeats[i]) == Happening::Read(Ok(first)),
    ensures
        pushed(
            Watch::Connecting,
            seq![Happening::Read(Ok(first))] + repeats + seq![Happening::Read(Ok(unknown))]
                + afterwards,
        ) == seq![Push::Status(first), Push::Status(unknown), Push::Failure],
        reached(
            Watch::Connecting,
            seq![Happening::Read(Ok(first))] + repeats + seq![Happening::Read(Ok(unknown))]
                + afterwards,
        ) == Watch::Terminated,
{
    let opening = seq![Happening::Read(Ok(first))];
    let closing = seq![Happening::Read(Ok(unknown))];
    lemma_one_event(Watch::Connecting, Happening::Read(Ok(first)));
    lemma_unchanged_is_silent(first, repeats);
    lemma_one_event(Watch::Watching(first), Happening::Read(Ok(unknown)));
    lemma_terminated_is_silent(afterwards);
    lemma_events_compose(Watch::Connecting, opening, repeats);
    lemma_events_compose(Watch::Connecting, opening + repeats, closing);
    lemma_events_compose(Watch::Connecting, opening + repeats + closing, afterwards);
    assert(pushed(Watch::Connecting, opening + repeats + closing + afterwards) =~= seq![
        Push::Status(first),
        Push::Status(unknown),
        Push::Failure,
    ]);
}

/// One event alone counts as one step.
proof fn lemma_one_event(state: Watch, event: Happening)
    ensures
        pushed(state, seq![event]) == step(state, event).1,
        reached(state, seq![event]) == step(state, event).0,
{
    let events = seq![event];
    assert(events.first() == event);
    assert(events.drop_first() =~= Seq::<Happening>::empty());
    let next = step(state, event).0;
    assert(pushed(next, events.drop_first()) =~= Seq::<Push>::empty());
    assert(pushed(state, events) =~= step(state, event).1);
    assert(reached(next, events.drop_first()) == next);
}

/// A message for the watcher.
#[derive(Debug, Clone, PartialEq, Eq)]
pub enum StreamMessage {
    /// The invoice's status, as stored.
    Status(String),
    /// The invoice had no status when the stream was opened.
    NotFound,
    /// The stream broke off.
    Failure,
}

impl View for StreamMessage {
    type V = Push;

    open spec fn view(&self) -> Push {
        match self {
            StreamMessage::Status(status) => Push::Status(status@),
            StreamMessage::NotFound => Push::NotFound,
            StreamMessage::Failure => Push::Failure,
        }
    }
}

/// Where a stream stands.
#[derive(Debug, Clone, PartialEq, Eq)]
pub enum StreamState {
    /// Nothing has been read yet.
    Connecting,
    /// The watcher was last sent `last_sent`.
    Watching { last_sent: String },
    /// The stream is over.
    Terminated,
}

impl View for StreamState {
    type V = Watch;

    open spec fn view(&self) -> Watch {
        match self {
            StreamState::Connecting => Watch::Connecting,
            StreamState::Watching { last_sent } => Watch::Watching(last_sent@),
            StreamState::Terminated => Watch::Terminated,
        }
    }
}

/// What happened since the last step.
#[derive(Debug, PartialEq, Eq)]
pub enum StreamEvent {
    /// The store was read, with this outcome.
    Read(Result<String, InvoiceError>),
    /// A message could not be delivered.
    Disconnected,
}

impl View for StreamEvent {
    type V = Happening;

    open spec fn view(&self) -> Happening {
        match self {
            StreamEvent::Read(Ok(status)) => Happening::Read(Ok(status@)),
            StreamEvent::Read(Err(error)) => Happening::Read(Err(*error)),
            StreamEvent::Disconnected => Happening::Disconnected,
        }
    }
}

/// The messages of a batch, each as its mathematical value.
pub open spec fn shown(batch: Seq<StreamMessage>) -> Seq<Push> {
    batch.map_values(|message: StreamMessage| message@)
}

impl StreamMessage {
    /// The fixed text of a message that carries no status.
    pub open spec fn notice(self) -> Seq<char> {
        match self {
            StreamMessage::Status(_) => Seq::empty(),
            StreamMessage::NotFound => "status not found"@,
            StreamMessage::Failure => "An error occured"@,
        }
    }

    /// The text sent under `message` when no status is sent; empty for a status.
    pub fn notice_text(&self) -> (text: String)
        ensures
            text@ == self.notice(),
    {
        match self {
            StreamMessage::Status(_) => String::new(),
            StreamMessage::NotFound => String::from_str("status not found"),
            StreamMessage::Failure => String::from_str("An error occured"),
        }
    }
}

impl StreamState {
    /// The state of a stream that has just been opened.
    pub fn new() -> (state: StreamState)
        ensures
            state@ == Watch::Connecting,
    {
        StreamState::Connecting
    }

    /// Whether the stream is over: no further read is to be made.
    pub fn is_terminated(&self) -> (over: bool)
        ensures
            over == (self@ == Watch::Terminated),
    {
        match self {
            StreamState::Terminated => true,
            _ => false,
        }
    }
}

/// Whether a stored status ends the stream once it has been sent.
pub fn is_final_status(status: &str) -> (ends: bool)
    ensures
        ends == ends_stream(status@),
{
    match InvoiceStatus::from_str(status) {
        Ok(known) => known.is_terminal(),
        Err(_) => false,
    }
}

/// Takes one step of a stream: from where it stands and what happened to
/// where it stands next, with the messages to send, in order.
pub fn advance(state: StreamState, event: StreamEvent) -> (next: (StreamState, Vec<StreamMessage>))
    ensures
        (next.0@, shown(next.1@)) == step(state@, event@),
{
    let mut batch: Vec<StreamMessage> = Vec::new();
    let after = match (state, event) {
        (StreamState::Terminated, _) => StreamState::Terminated,
        (_, StreamEvent::Disconnected) => StreamState::Terminated,
        (StreamState::Connecting, StreamEvent::Read(Err(_))) => {
            batch.push(StreamMessage::NotFound);
            StreamState::Terminated
        },
        (StreamState::Connecting, StreamEvent::Read(Ok(status))) => {
            batch.push(StreamMessage::Status(status.clone()));
            if is_final_status(status.as_str()) {
                StreamState::Terminated
            } else {
                StreamState::Watching { last_sent: status }
            }
        },
        (StreamState::Watching { .. }, StreamEvent::Read(Err(_))) => {
            batch.push(StreamMessage::Failure);
            StreamState::Terminated
        },
        (StreamState::Watching { last_sent }, StreamEvent::Read(Ok(status))) => {
            if status == last_sent {
                StreamState::Watching { last_sent }
            } else {
                batch.push(StreamMessage::Status(status.clone()));
                match InvoiceStatus::from_str(status.as_str()) {
                    Ok(known) => {
                        if known.is_terminal() {
                            StreamState::Terminated
                        } else {
                            StreamState::Watching { last_sent: status }
                        }
                    },
                    Err(_) => {
                        batch.push(StreamMessage::Failure);
                        StreamState::Terminated
                    },
                }
            }
        },
    };
    proof {
        assert(shown(batch@) =~= step(state@, event@).1);
    }
    (after, batch)
}

} // verus!
