//! The per-connection session logic, as a state machine over plain
//! events. The surrounding task performs the I/O: it reads lines and
//! bus events, hands each to [`session_step`], and carries out the
//! returned action. A session greets with the roster, then relays in
//! both directions until either side ends it; any I/O failure means
//! only "this client is gone" and never touches other sessions.

use vstd::prelude::*;

use crate::bus::RecvOutcome;
use crate::directory::InMemoryDB;
use crate::directory::roster_excluding;
use crate::message::format_activity;
use crate::message::format_user_list;
use crate::message::spec_format_activity;
use crate::message::spec_format_user_list;
use crate::text::is_blank;
use crate::text::lemma_blank_trim;
use crate::text::trim_line;
use crate::text::trim_spec;

verus! {

/// Where a session stands: sending the greeting, relaying, or shutting
/// down after either direction ended.
#[derive(Clone, Copy, PartialEq, Eq, Structural, Debug)]
pub enum SessionState {
    Greeting,
    Active,
    Closing,
    Terminated,
}

/// One thing that can happen to a session: a bus receive completed, a
/// line arrived from the client, the input ended or failed, or a write
/// to the client failed.
pub enum SessionEvent {
    Bus(RecvOutcome),
    LineRead(String),
    InputEnded,
    ReadFailed,
    WriteFailed,
}

/// What the surrounding task must do next: write one line to the
/// client, submit chat text to the directory, nothing, or tear the
/// connection down.
#[derive(Debug)]
pub enum SessionAction {
    WriteLine(String),
    Submit(String),
    Nothing,
    Stop,
}

/// Advance the session by one event.
///
/// While relaying: a received activity is written to the client as its
/// formatted wire line; a lag signal is tolerated, never fatal — the
/// session continues with nothing written; a non-blank input line is
/// submitted, trimmed, while a blank line is discarded without
/// producing any activity; and end of input, a read failure, a write
/// failure or a closed bus each end the session.
pub fn session_step(state: SessionState, event: SessionEvent) -> (r: (
    SessionState,
    SessionAction,
))
    ensures
        (state is Closing || state is Terminated) ==> r.0 is Terminated && r.1 is Stop,
        (state is Greeting || state is Active) ==> match event {
            SessionEvent::Bus(o) => match o {
                RecvOutcome::Activity(a) => r.0 is Active && (r.1 matches SessionAction::WriteLine(
                    l,
                ) && l@ == spec_format_activity(a@)),
                RecvOutcome::Lagged(_) => r.0 is Active && r.1 is Nothing,
                RecvOutcome::Pending => r.0 is Active && r.1 is Nothing,
                RecvOutcome::Closed => r.0 is Closing && r.1 is Stop,
            },
            SessionEvent::LineRead(line) => r.0 is Active && (if trim_spec(line@).len() == 0 {
                r.1 is Nothing
            } else {
                r.1 matches SessionAction::Submit(t) && t@ == trim_spec(line@) && !is_blank(t@)
            }),
            SessionEvent::InputEnded => r.0 is Closing && r.1 is Stop,
            SessionEvent::ReadFailed => r.0 is Closing && r.1 is Stop,
            SessionEvent::WriteFailed => r.0 is Closing && r.1 is Stop,
        },
{
    match state {
        SessionState::Closing | SessionState::Terminated => (
            SessionState::Terminated,
            SessionAction::Stop,
        ),
        SessionState::Greeting | SessionState::Active => match event {
            SessionEvent::Bus(o) => match o {
                RecvOutcome::Activity(a) => {
                    let line = format_activity(&a);
                    (SessionState::Active, SessionAction::WriteLine(line))
                },
                RecvOutcome::Lagged(_) => (SessionState::Active, SessionAction::Nothing),
                RecvOutcome::Pending => (SessionState::Active, SessionAction::Nothing),
                RecvOutcome::Closed => (SessionState::Closing, SessionAction::Stop),
            },
            SessionEvent::LineRead(line) => {
                let trimmed = trim_line(line.as_str());
                if trimmed.as_str().is_empty() {
                    (SessionState::Active, SessionAction::Nothing)
                } else {
                    proof {
                        lemma_blank_trim(line@);
                    }
                    (SessionState::Active, SessionAction::Submit(trimmed))
                }
            },
            SessionEvent::InputEnded => (SessionState::Closing, SessionAction::Stop),
            SessionEvent::ReadFailed => (SessionState::Closing, SessionAction::Stop),
            SessionEvent::WriteFailed => (SessionState::Closing, SessionAction::Stop),
        },
    }
}

/// The greeting a newly connected session is sent first: the roster as
/// it stands, minus the session's own identifier.
pub fn greeting_line(db: &InMemoryDB, own_uuid: &String) -> (r: String)
    ensures
        r@ == spec_format_user_list(roster_excluding(db@.users, own_uuid@)),
{
    let others = db.snapshot_roster(own_uuid);
    format_user_list(&others)
}

} // verus!
