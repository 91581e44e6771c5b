//! The bootstrap of a freshly spawned agent-browser daemon, as a state
//! machine: poll its socket until it answers (ten seconds at most), then
//! send the initial commands.

use vstd::prelude::*;
use crate::protocol::{
    launch_headless, navigate, screencast_start, stream_enable, str_field, int_field,
    DaemonCommand, ParamModel,
};
use crate::text::{push_str, string_from_chars, string_of};

verus! {

/// The number of polls before the final readiness check.
pub open spec fn poll_limit() -> nat {
    50
}

/// The pause between two polls, in milliseconds.
pub open spec fn poll_pause_ms() -> nat {
    200
}

/// The initial commands, in the order they are sent: enable the stream,
/// launch a headless browser, open a blank page, start the JPEG screencast.
pub open spec fn bootstrap_commands() -> Seq<(Seq<char>, Seq<(Seq<char>, ParamModel)>)> {
    seq![
        ("stream_enable"@, Seq::<(Seq<char>, ParamModel)>::empty()),
        ("launch"@, seq![("headless"@, ParamModel::Bool(true))]),
        ("navigate"@, seq![str_field("url"@, "about:blank"@)]),
        ("screencast_start"@, seq![str_field("format"@, "jpeg"@), int_field("quality"@, 80)]),
    ]
}

/// The index of the command whose failure fails the whole bootstrap.
pub open spec fn navigate_step() -> nat {
    2
}

/// Where the bootstrap stands.
#[derive(Clone, Copy, Debug, PartialEq, Eq, Structural)]
pub enum BootstrapPhase {
    /// Poll number `k` (from 0) is under way.
    Polling(u32),
    /// Poll number `k` failed and the pause after it is under way.
    Pausing(u32),
    /// The final readiness check is under way.
    FinalCheck,
    /// Initial command number `i` is under way.
    Sending(usize),
    /// The bootstrap is over.
    Finished,
}

/// What happened since the last step.
pub enum BootstrapEvent {
    /// A connection attempt to the socket succeeded or failed.
    Connected(bool),
    /// The pause is over.
    Paused,
    /// The daemon answered the last command, or sending it failed.
    Replied(Result<(), String>),
}

/// What to do next.
pub enum BootstrapAction {
    /// Try to connect to the daemon socket.
    TryConnect,
    /// Pause this many milliseconds.
    Pause(u64),
    /// Send this command.
    Send(DaemonCommand),
    /// The bootstrap is over, with this result.
    Done(Result<(), String>),
}

/// The model of a [`BootstrapAction`].
pub enum ActionModel {
    TryConnect,
    Pause(nat),
    Send((Seq<char>, Seq<(Seq<char>, ParamModel)>)),
    Done(Result<(), Seq<char>>),
}

impl View for BootstrapAction {
    type V = ActionModel;

    open spec fn view(&self) -> ActionModel {
        match self {
            BootstrapAction::TryConnect => ActionModel::TryConnect,
            BootstrapAction::Pause(ms) => ActionModel::Pause(*ms as nat),
            BootstrapAction::Send(c) => ActionModel::Send(c@),
            BootstrapAction::Done(Ok(())) => ActionModel::Done(Ok(())),
            BootstrapAction::Done(Err(e)) => ActionModel::Done(Err(e@)),
        }
    }
}

/// The model of a [`BootstrapEvent`].
pub enum EventModel {
    Connected(bool),
    Paused,
    Replied(Result<(), Seq<char>>),
}

impl View for BootstrapEvent {
    type V = EventModel;

    open spec fn view(&self) -> EventModel {
        match self {
            BootstrapEvent::Connected(b) => EventModel::Connected(*b),
            BootstrapEvent::Paused => EventModel::Paused,
            BootstrapEvent::Replied(Ok(())) => EventModel::Replied(Ok(())),
            BootstrapEvent::Replied(Err(e)) => EventModel::Replied(Err(e@)),
        }
    }
}

/// Whether `e` is an event that can follow the action of phase `p`.
pub open spec fn event_fits(p: BootstrapPhase, e: EventModel) -> bool {
    match p {
        BootstrapPhase::Polling(_) => e is Connected,
        BootstrapPhase::FinalCheck => e is Connected,
        BootstrapPhase::Pausing(_) => e is Paused,
        BootstrapPhase::Sending(i) => e is Replied && i < 4,
        BootstrapPhase::Finished => false,
    }
}

pub open spec fn timeout_message() -> Seq<char> {
    "agent-browser daemon failed to start within 10 seconds"@
}

/// One step: a poll that answers leads to the final check, a poll that
/// does not to a pause and, while polls remain, to the next poll; the
/// final check decides between sending the first command and the timeout
/// error; a failed `navigate` ends the bootstrap with its error, any other
/// reply leads to the next command or, after the last, to success.
pub open spec fn step_model(p: BootstrapPhase, e: EventModel) -> (BootstrapPhase, ActionModel) {
    match p {
        BootstrapPhase::Polling(k) => if e->Connected_0 {
            (BootstrapPhase::FinalCheck, ActionModel::TryConnect)
        } else {
            (BootstrapPhase::Pausing(k), ActionModel::Pause(poll_pause_ms()))
        },
        BootstrapPhase::Pausing(k) => if k + 1 < poll_limit() {
            (BootstrapPhase::Polling((k + 1) as u32), ActionModel::TryConnect)
        } else {
            (BootstrapPhase::FinalCheck, ActionModel::TryConnect)
        },
        BootstrapPhase::FinalCheck => if e->Connected_0 {
            (BootstrapPhase::Sending(0), ActionModel::Send(bootstrap_commands()[0]))
        } else {
            (BootstrapPhase::Finished, ActionModel::Done(Err(timeout_message())))
        },
        BootstrapPhase::Sending(i) => match e->Replied_0 {
            Err(msg) if i == navigate_step() => (
                BootstrapPhase::Finished,
                ActionModel::Done(Err("navigate failed: "@ + msg)),
            ),
            _ => if i + 1 < 4 {
                (BootstrapPhase::Sending((i + 1) as usize), ActionModel::Send(bootstrap_commands()[i + 1]))
            } else {
                (BootstrapPhase::Finished, ActionModel::Done(Ok(())))
            },
        },
        BootstrapPhase::Finished => (BootstrapPhase::Finished, ActionModel::Done(Ok(()))),
    }
}

/// The start of a bootstrap: the first poll.
pub fn bootstrap_start() -> (r: (BootstrapPhase, BootstrapAction))
    ensures
        r.0 == BootstrapPhase::Polling(0),
        r.1@ == ActionModel::TryConnect,
{
    (BootstrapPhase::Polling(0), BootstrapAction::TryConnect)
}

/// Initial command number `i`.
pub fn bootstrap_command(i: usize) -> (c: DaemonCommand)
    requires
        i < 4,
    ensures
        c@ == bootstrap_commands()[i as int],
{
    if i == 0 {
        stream_enable()
    } else if i == 1 {
        launch_headless()
    } else if i == 2 {
        navigate("about:blank")
    } else {
        screencast_start()
    }
}

/// The next phase and action after `event` (see [`step_model`]).
pub fn bootstrap_step(phase: BootstrapPhase, event: BootstrapEvent) -> (r: (BootstrapPhase, BootstrapAction))
    requires
        event_fits(phase, event@),
    ensures
        (r.0, r.1@) == step_model(phase, event@),
{
    match phase {
        BootstrapPhase::Polling(k) => {
            if let BootstrapEvent::Connected(ok) = event {
                if ok {
                    (BootstrapPhase::FinalCheck, BootstrapAction::TryConnect)
                } else {
                    (BootstrapPhase::Pausing(k), BootstrapAction::Pause(200))
                }
            } else {
                (BootstrapPhase::Finished, BootstrapAction::Done(Ok(())))
            }
        },
        BootstrapPhase::Pausing(k) => {
            if k < 49 {
                (BootstrapPhase::Polling(k + 1), BootstrapAction::TryConnect)
            } else {
                (BootstrapPhase::FinalCheck, BootstrapAction::TryConnect)
            }
        },
        BootstrapPhase::FinalCheck => {
            if let BootstrapEvent::Connected(ok) = event {
                if ok {
                    (BootstrapPhase::Sending(0), BootstrapAction::Send(bootstrap_command(0)))
                } else {
                    (
                        BootstrapPhase::Finished,
                        BootstrapAction::Done(
                            Err(string_of("agent-browser daemon failed to start within 10 seconds")),
                        ),
                    )
                }
            } else {
                (BootstrapPhase::Finished, BootstrapAction::Done(Ok(())))
            }
        },
        BootstrapPhase::Sending(i) => {
            if let BootstrapEvent::Replied(res) = event {
                match res {
                    Err(msg) if i == 2 => {
                        let mut m: Vec<char> = Vec::new();
                        push_str(&mut m, "navigate failed: ");
                        push_str(&mut m, msg.as_str());
                        (BootstrapPhase::Finished, BootstrapAction::Done(Err(string_from_chars(&m))))
                    },
                    _ => {
                        if i < 3 {
                            (BootstrapPhase::Sending(i + 1), BootstrapAction::Send(bootstrap_command(i + 1)))
                        } else {
                            (BootstrapPhase::Finished, BootstrapAction::Done(Ok(())))
                        }
                    },
                }
            } else {
                (BootstrapPhase::Finished, BootstrapAction::Done(Ok(())))
            }
        },
        BootstrapPhase::Finished => (BootstrapPhase::Finished, BootstrapAction::Done(Ok(()))),
    }
}

/// Whether a phase can occur: polls are numbered below the limit and
/// commands below their count.
pub open spec fn phase_ok(p: BootstrapPhase) -> bool {
    match p {
        BootstrapPhase::Polling(k) => k < poll_limit(),
        BootstrapPhase::Pausing(k) => k < poll_limit(),
        BootstrapPhase::Sending(i) => i < 4,
        _ => true,
    }
}

/// An upper bound on the steps left before the bootstrap is over.
pub open spec fn steps_left(p: BootstrapPhase) -> nat {
    match p {
        BootstrapPhase::Polling(k) => (7 + 2 * (49 - k)) as nat,
        BootstrapPhase::Pausing(k) => (6 + 2 * (49 - k)) as nat,
        BootstrapPhase::FinalCheck => 5,
        BootstrapPhase::Sending(i) => (4 - i) as nat,
        BootstrapPhase::Finished => 0,
    }
}

/// Every bootstrap ends: each step keeps the phase well formed and
/// strictly lowers the bound on the steps left, which is 105 at the
/// start; so at most 50 pauses of 200 ms (ten seconds) pass before the
/// final readiness check.
pub proof fn lemma_bootstrap_ends(p: BootstrapPhase, e: EventModel)
    requires
        phase_ok(p),
        event_fits(p, e),
    ensures
        phase_ok(step_model(p, e).0),
        steps_left(step_model(p, e).0) < steps_left(p),
        steps_left(BootstrapPhase::Polling(0)) == 105,
{
}

} // verus!
