//! The decisions of a terminal event source: what to report next, and what
//! to ask of the input and the signal and size sources meanwhile. The
//! caller performs each action and hands back what came of it.

use vstd::prelude::*;

use crate::bang_core::event::{plain_key, Event, EventModel, Key};
use crate::terminal::decoder::{decode_run, events_view, flush_model, Decoder, DecoderModel};
use crate::terminal::events::TerminalPoll;

verus! {

/// A polled item as values.
pub enum PollModel {
    Event(EventModel),
    Signal(i32),
    End,
}

impl View for TerminalPoll {
    type V = PollModel;

    open spec fn view(&self) -> PollModel {
        match self {
            TerminalPoll::Event(event) => PollModel::Event(event@),
            TerminalPoll::Signal(signal) => PollModel::Signal(*signal),
            TerminalPoll::End => PollModel::End,
        }
    }
}

pub open spec fn polls_view(items: Seq<TerminalPoll>) -> Seq<PollModel> {
    items.map_values(|item: TerminalPoll| item@)
}

/// Decoded events as polled items.
pub open spec fn event_polls(events: Seq<EventModel>) -> Seq<PollModel> {
    events.map_values(|event: EventModel| PollModel::Event(event))
}

/// The state of an event source between polls: the decoder, the items
/// decoded but not yet reported, whether input has ended, and whether a
/// lone escape is waiting for its timeout.
pub struct EventState {
    pub decoder: Decoder,
    pub pending: Vec<TerminalPoll>,
    pub ended: bool,
    pub escape_waiting: bool,
}

pub struct EventStateModel {
    pub decoder: DecoderModel,
    pub pending: Seq<PollModel>,
    pub ended: bool,
    pub escape_waiting: bool,
}

impl View for EventState {
    type V = EventStateModel;

    open spec fn view(&self) -> EventStateModel {
        EventStateModel {
            decoder: self.decoder@,
            pending: polls_view(self.pending@),
            ended: self.ended,
            escape_waiting: self.escape_waiting,
        }
    }
}

impl EventState {
    /// A source with nothing read yet.
    pub fn new() -> (state: Self)
        ensures
            state@.decoder == (DecoderModel { pending: Seq::empty(), paste: Seq::empty(), in_paste: false }),
            state@.pending.len() == 0,
            !state@.ended,
            !state@.escape_waiting,
    {
        let state = EventState { decoder: Decoder::new(), pending: Vec::new(), ended: false, escape_waiting: false };
        assert(polls_view(state.pending@) =~= Seq::<PollModel>::empty());
        state
    }
}

/// What came of the last action, or a new request.
pub enum PollEvent {
    /// The caller asks for the next item.
    Asked,
    /// What the signal and size sources had to report, if anything.
    Sideband(Option<TerminalPoll>),
    /// A read was interrupted before any byte came.
    Interrupted,
    /// Bytes came from the input.
    Bytes(Vec<u8>),
    /// The input ended.
    Ended,
    /// The wait for input timed out; `escape_due` tells whether a waiting
    /// escape has waited its full timeout.
    TimedOut { escape_due: bool },
}

pub enum PollEventModel {
    Asked,
    Sideband(Option<PollModel>),
    Interrupted,
    Bytes(Seq<u8>),
    Ended,
    TimedOut { escape_due: bool },
}

impl View for PollEvent {
    type V = PollEventModel;

    open spec fn view(&self) -> PollEventModel {
        match self {
            PollEvent::Asked => PollEventModel::Asked,
            PollEvent::Sideband(item) => PollEventModel::Sideband(
                match item {
                    Some(i) => Some(i@),
                    None => None,
                },
            ),
            PollEvent::Interrupted => PollEventModel::Interrupted,
            PollEvent::Bytes(bytes) => PollEventModel::Bytes(bytes@),
            PollEvent::Ended => PollEventModel::Ended,
            PollEvent::TimedOut { escape_due } => PollEventModel::TimedOut { escape_due: *escape_due },
        }
    }
}

/// What the caller is to do next.
pub enum PollAction {
    /// Report this item; the poll is over.
    Deliver(TerminalPoll),
    /// Ask the signal and size sources.
    PollSideband,
    /// Wait for input.
    WaitForInput,
}

pub enum PollActionModel {
    Deliver(PollModel),
    PollSideband,
    WaitForInput,
}

impl View for PollAction {
    type V = PollActionModel;

    open spec fn view(&self) -> PollActionModel {
        match self {
            PollAction::Deliver(item) => PollActionModel::Deliver(item@),
            PollAction::PollSideband => PollActionModel::PollSideband,
            PollAction::WaitForInput => PollActionModel::WaitForInput,
        }
    }
}

/// Report the first queued item when there is one, or ask the sources.
pub open spec fn deliver_or_ask(s: EventStateModel) -> (EventStateModel, PollActionModel) {
    if s.pending.len() > 0 {
        (EventStateModel { pending: s.pending.drop_first(), ..s }, PollActionModel::Deliver(s.pending[0]))
    } else {
        (s, PollActionModel::PollSideband)
    }
}

/// One decision of the event source. A request reports a queued item
/// first, then the end of input, then asks the signal and size sources;
/// what they report is delivered, and when they have nothing the source
/// waits for input. Bytes are decoded and queued, and a lone escape is
/// marked waiting; the end of input flushes the decoder and queues the
/// end. A timed-out wait reports a waiting escape whose time is up, and
/// otherwise asks the sources again.
pub open spec fn poll_step(s: EventStateModel, event: PollEventModel) -> (EventStateModel, PollActionModel) {
    match event {
        PollEventModel::Asked => if s.pending.len() > 0 {
            deliver_or_ask(s)
        } else if s.ended {
            (s, PollActionModel::Deliver(PollModel::End))
        } else {
            (s, PollActionModel::PollSideband)
        },
        PollEventModel::Sideband(Some(item)) => (s, PollActionModel::Deliver(item)),
        PollEventModel::Sideband(None) => (s, PollActionModel::WaitForInput),
        PollEventModel::Interrupted => (s, PollActionModel::PollSideband),
        PollEventModel::TimedOut { escape_due } => if escape_due && s.escape_waiting {
            if s.decoder.pending == seq![27u8] {
                (
                    EventStateModel {
                        decoder: DecoderModel { pending: Seq::empty(), ..s.decoder },
                        escape_waiting: false,
                        ..s
                    },
                    PollActionModel::Deliver(PollModel::Event(plain_key(Key::Esc))),
                )
            } else {
                (EventStateModel { escape_waiting: false, ..s }, PollActionModel::PollSideband)
            }
        } else {
            (s, PollActionModel::PollSideband)
        },
        PollEventModel::Bytes(bytes) => {
            let (events, decoder) = decode_run(DecoderModel { pending: s.decoder.pending + bytes, ..s.decoder });
            deliver_or_ask(
                EventStateModel {
                    decoder,
                    pending: s.pending + event_polls(events),
                    escape_waiting: decoder.pending == seq![27u8],
                    ..s
                },
            )
        },
        PollEventModel::Ended => {
            let (events, decoder) = flush_model(s.decoder);
            deliver_or_ask(
                EventStateModel { decoder, pending: s.pending + event_polls(events).push(PollModel::End), ended: true, ..s },
            )
        },
    }
}

fn queue_events(pending: &mut Vec<TerminalPoll>, events: &Vec<Event>)
    ensures
        polls_view(final(pending)@) == polls_view(old(pending)@) + event_polls(events_view(events@)),
{
    let mut i: usize = 0;
    while i < events.len()
        invariant
            i <= events@.len(),
            polls_view(pending@) == polls_view(old(pending)@) + event_polls(events_view(events@.subrange(0, i as int))),
        decreases events@.len() - i,
    {
        let ghost before = pending@;
        let event = events[i].clone();
        let ghost seen = event@;
        pending.push(TerminalPoll::Event(event));
        assert(polls_view(pending@) =~= polls_view(before).push(PollModel::Event(seen)));
        assert(event_polls(events_view(events@.subrange(0, i + 1))) =~= event_polls(
            events_view(events@.subrange(0, i as int)),
        ).push(PollModel::Event(seen)));
        i += 1;
    }
    assert(events@.subrange(0, events@.len() as int) =~= events@);
}

fn deliver_or_ask_exec(state: EventState) -> (next: (EventState, PollAction))
    ensures
        (next.0@, next.1@) == deliver_or_ask(state@),
{
    let mut state = state;
    if state.pending.len() > 0 {
        let ghost before = state.pending@;
        let item = state.pending.remove(0);
        assert(polls_view(state.pending@) =~= polls_view(before).drop_first());
        (state, PollAction::Deliver(item))
    } else {
        (state, PollAction::PollSideband)
    }
}

/// One decision of an event source: the state after `event` and what the
/// caller is to do next.
pub fn next_step(state: EventState, event: PollEvent) -> (next: (EventState, PollAction))
    ensures
        (next.0@, next.1@) == poll_step(state@, event@),
{
    let mut state = state;
    match event {
        PollEvent::Asked => {
            if state.pending.len() > 0 {
                deliver_or_ask_exec(state)
            } else if state.ended {
                (state, PollAction::Deliver(TerminalPoll::End))
            } else {
                (state, PollAction::PollSideband)
            }
        },
        PollEvent::Sideband(Some(item)) => (state, PollAction::Deliver(item)),
        PollEvent::Sideband(None) => (state, PollAction::WaitForInput),
        PollEvent::Interrupted => (state, PollAction::PollSideband),
        PollEvent::TimedOut { escape_due } => {
            if escape_due && state.escape_waiting {
                state.escape_waiting = false;
                match state.decoder.flush_escape() {
                    Some(event) => (state, PollAction::Deliver(TerminalPoll::Event(event))),
                    None => (state, PollAction::PollSideband),
                }
            } else {
                (state, PollAction::PollSideband)
            }
        },
        PollEvent::Bytes(bytes) => {
            let decoded = state.decoder.feed(bytes.as_slice());
            queue_events(&mut state.pending, &decoded);
            state.escape_waiting = state.decoder.escape_pending();
            deliver_or_ask_exec(state)
        },
        PollEvent::Ended => {
            let decoded = state.decoder.flush();
            queue_events(&mut state.pending, &decoded);
            let ghost before = state.pending@;
            state.pending.push(TerminalPoll::End);
            assert(polls_view(state.pending@) =~= polls_view(before).push(PollModel::End));
            state.ended = true;
            deliver_or_ask_exec(state)
        },
    }
}

} // verus!
