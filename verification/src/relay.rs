//! Relay between the standard streams and a terminal
//!
//! What the terminal helper does with what it reads, until either side ends.
use vstd::prelude::*;

use crate::text::option_view;
use crate::user_terminal_handler::{ends_session, is_session_end, ReadOutcome};

verus! {

/// How many bytes are relayed at a time
pub const RELAY_BUFFER_SIZE: usize = 16384;

/// How long a round of the relay waits for data, in milliseconds
pub const RELAY_POLL_MILLIS: u16 = 100;

/// What has data, and whether the terminal has hung up
#[derive(Debug, Clone, Copy, PartialEq, Eq, Structural)]
pub struct RelayPoll {
    /// Whether standard input has data
    pub input: bool,
    /// Whether the terminal has data
    pub terminal: bool,
    /// Whether the terminal has hung up
    pub hangup: bool,
}

/// How far a round of the relay has come
#[derive(Debug, Clone, Copy, PartialEq, Eq, Structural)]
pub enum RelayStage {
    /// Data is awaited
    Polling,
    /// Standard input is being read
    ReadingInput,
    /// The terminal is being read
    ReadingTerminal,
    /// The relay is over
    Over,
}

/// What came of the latest step of the relay
#[derive(Debug)]
pub enum RelayEvent {
    /// What has data, or nothing where waiting failed
    Polled(Option<RelayPoll>),
    /// What reading standard input gave
    InputRead(ReadOutcome),
    /// What reading the terminal gave
    TerminalRead(ReadOutcome),
}

/// What the relay needs next
#[derive(Debug, Clone, Copy, PartialEq, Eq, Structural)]
pub enum RelayStep {
    /// Data is to be awaited
    Poll { millis: u16 },
    /// Standard input is to be read
    ReadInput { count: usize },
    /// The terminal is to be read
    ReadTerminal { count: usize },
    /// The relay is over
    Finished,
}

/// What the relay is to do: first data is written, then comes the step
#[derive(Debug)]
pub struct RelayTurn {
    /// Data for the terminal
    pub to_terminal: Option<Vec<u8>>,
    /// Data for standard output
    pub to_output: Option<Vec<u8>>,
    /// What is needed next
    pub step: RelayStep,
}

/// What a [`RelayTurn`] says.
pub struct RelayTurnView {
    pub to_terminal: Option<Seq<u8>>,
    pub to_output: Option<Seq<u8>>,
    pub step: RelayStep,
}

impl View for RelayTurn {
    type V = RelayTurnView;

    open spec fn view(&self) -> RelayTurnView {
        RelayTurnView {
            to_terminal: option_view(self.to_terminal),
            to_output: option_view(self.to_output),
            step: self.step,
        }
    }
}

/// A relay between the standard streams and a terminal
#[derive(Debug)]
pub struct Relay {
    stage: RelayStage,
    polled: RelayPoll,
}

/// The state of a [`Relay`].
pub struct RelayView {
    /// How far the round has come
    pub stage: RelayStage,
    /// What has data in this round
    pub polled: RelayPoll,
}

impl View for Relay {
    type V = RelayView;

    closed spec fn view(&self) -> RelayView {
        RelayView { stage: self.stage, polled: self.polled }
    }
}

/// The data that was read, if any.
pub open spec fn data_of(outcome: ReadOutcome) -> Option<Seq<u8>> {
    match outcome {
        Ok(data) => Some(data@),
        Err(_) => None,
    }
}

impl RelayView {
    /// Whether the relay waits for `event`.
    pub open spec fn awaits(self, event: RelayEvent) -> bool {
        match self.stage {
            RelayStage::Polling => event is Polled,
            RelayStage::ReadingInput => event is InputRead,
            RelayStage::ReadingTerminal => event is TerminalRead,
            RelayStage::Over => false,
        }
    }

    /// The relay at another stage, with what is needed next.
    pub open spec fn to(self, stage: RelayStage, step: RelayStep) -> (RelayView, RelayStep) {
        (RelayView { stage, ..self }, step)
    }

    /// The start of a round.
    pub open spec fn round(self) -> (RelayView, RelayStep) {
        self.to(RelayStage::Polling, RelayStep::Poll { millis: RELAY_POLL_MILLIS })
    }

    /// The end of the relay.
    pub open spec fn finished(self) -> (RelayView, RelayStep) {
        self.to(RelayStage::Over, RelayStep::Finished)
    }

    /// The part of a round that looks whether the terminal has hung up.
    pub open spec fn hangup_part(self) -> (RelayView, RelayStep) {
        if self.polled.hangup {
            self.finished()
        } else {
            self.round()
        }
    }

    /// The part of a round in which the terminal is read.
    pub open spec fn terminal_part(self) -> (RelayView, RelayStep) {
        if self.polled.terminal {
            self.to(
                RelayStage::ReadingTerminal,
                RelayStep::ReadTerminal { count: RELAY_BUFFER_SIZE },
            )
        } else {
            self.hangup_part()
        }
    }

    /// The next state of the relay, and what is to be done.
    pub open spec fn next(self, event: RelayEvent) -> (RelayView, RelayTurnView) {
        match event {
            RelayEvent::Polled(None) => {
                let (relay, step) = self.round();
                (relay, RelayTurnView { to_terminal: None, to_output: None, step })
            },
            RelayEvent::Polled(Some(polled)) => {
                let now = RelayView { polled, ..self };
                let (relay, step) = if polled.input {
                    now.to(
                        RelayStage::ReadingInput,
                        RelayStep::ReadInput { count: RELAY_BUFFER_SIZE },
                    )
                } else {
                    now.terminal_part()
                };
                (relay, RelayTurnView { to_terminal: None, to_output: None, step })
            },
            RelayEvent::InputRead(outcome) => if ends_session(outcome) {
                let (relay, step) = self.finished();
                (relay, RelayTurnView { to_terminal: None, to_output: None, step })
            } else {
                let (relay, step) = self.terminal_part();
                (relay, RelayTurnView { to_terminal: data_of(outcome), to_output: None, step })
            },
            RelayEvent::TerminalRead(outcome) => if ends_session(outcome) {
                let (relay, step) = self.finished();
                (relay, RelayTurnView { to_terminal: None, to_output: None, step })
            } else {
                let (relay, step) = self.hangup_part();
                (relay, RelayTurnView { to_terminal: None, to_output: data_of(outcome), step })
            },
        }
    }
}

impl Relay {
    /// Starts a relay
    pub fn begin() -> (r: (Relay, RelayStep))
        ensures
            r.0@ == (RelayView {
                stage: RelayStage::Polling,
                polled: RelayPoll { input: false, terminal: false, hangup: false },
            }),
            r.1 == (RelayStep::Poll { millis: RELAY_POLL_MILLIS }),
    {
        (
            Relay {
                stage: RelayStage::Polling,
                polled: RelayPoll { input: false, terminal: false, hangup: false },
            },
            RelayStep::Poll { millis: RELAY_POLL_MILLIS },
        )
    }

    fn round(&mut self) -> (r: RelayStep)
        ensures
            (final(self)@, r) == old(self)@.round(),
    {
        self.stage = RelayStage::Polling;
        RelayStep::Poll { millis: RELAY_POLL_MILLIS }
    }

    fn finish(&mut self) -> (r: RelayStep)
        ensures
            (final(self)@, r) == old(self)@.finished(),
    {
        self.stage = RelayStage::Over;
        RelayStep::Finished
    }

    fn hangup_part(&mut self) -> (r: RelayStep)
        ensures
            (final(self)@, r) == old(self)@.hangup_part(),
    {
        if self.polled.hangup {
            self.finish()
        } else {
            self.round()
        }
    }

    fn terminal_part(&mut self) -> (r: RelayStep)
        ensures
            (final(self)@, r) == old(self)@.terminal_part(),
    {
        if self.polled.terminal {
            self.stage = RelayStage::ReadingTerminal;
            RelayStep::ReadTerminal { count: RELAY_BUFFER_SIZE }
        } else {
            self.hangup_part()
        }
    }

    /// Goes on with the relay
    pub fn step(&mut self, event: RelayEvent) -> (r: RelayTurn)
        requires
            old(self)@.awaits(event),
        ensures
            (final(self)@, r@) == old(self)@.next(event),
    {
        let mut to_terminal: Option<Vec<u8>> = None;
        let mut to_output: Option<Vec<u8>> = None;
        let step = match event {
            RelayEvent::Polled(None) => self.round(),
            RelayEvent::Polled(Some(polled)) => {
                self.polled = polled;
                if polled.input {
                    self.stage = RelayStage::ReadingInput;
                    RelayStep::ReadInput { count: RELAY_BUFFER_SIZE }
                } else {
                    self.terminal_part()
                }
            },
            RelayEvent::InputRead(outcome) => {
                if is_session_end(&outcome) {
                    self.finish()
                } else {
                    to_terminal = outcome.ok();
                    self.terminal_part()
                }
            },
            RelayEvent::TerminalRead(outcome) => {
                if is_session_end(&outcome) {
                    self.finish()
                } else {
                    to_output = outcome.ok();
                    self.hangup_part()
                }
            },
        };
        RelayTurn { to_terminal, to_output, step }
    }
}

/// What is read of one side is written to the other as it is.
pub proof fn law_relay_passes_data_unchanged(relay: RelayView, data: Vec<u8>)
    requires
        data@.len() > 0,
    ensures
        relay.next(RelayEvent::InputRead(Ok(data))).1.to_terminal == Some(data@),
        relay.next(RelayEvent::TerminalRead(Ok(data))).1.to_output == Some(data@),
{
}

/// In every round the sides that have data are read before anything is awaited again and before
/// a hangup ends the relay: standard input first, then the terminal. A round in which waiting
/// failed, or in which nothing has data and nothing hung up, is followed by the next round.
pub proof fn law_relay_reads_what_has_data(relay: RelayView, polled: RelayPoll)
    ensures
        ({
            let (after, turn) = relay.next(RelayEvent::Polled(Some(polled)));
            &&& turn.to_terminal is None && turn.to_output is None
            &&& polled.input ==> turn.step == (RelayStep::ReadInput { count: 16384 })
            &&& !polled.input && polled.terminal ==> turn.step == (RelayStep::ReadTerminal {
                count: 16384,
            })
            &&& !polled.input && !polled.terminal && polled.hangup ==> turn.step
                == RelayStep::Finished
            &&& !polled.input && !polled.terminal && !polled.hangup ==> turn.step
                == (RelayStep::Poll { millis: 100 })
            &&& forall|event: RelayEvent| #[trigger]
                after.awaits(event) <==> {
                    ||| turn.step is ReadInput && event is InputRead
                    ||| turn.step is ReadTerminal && event is TerminalRead
                    ||| turn.step is Poll && event is Polled
                }
        }),
        ({
            let (after, turn) = relay.next(RelayEvent::Polled(None));
            &&& turn.to_terminal is None && turn.to_output is None
            &&& turn.step == (RelayStep::Poll { millis: 100 })
            &&& forall|event: RelayEvent| #[trigger] after.awaits(event) <==> event is Polled
        }),
{
}

/// Once standard input is read, its data goes to the terminal, and the terminal is read in the
/// same round where it has data. Standard input that is closed, or that fails other than by
/// having nothing to read, ends the relay at once.
pub proof fn law_relay_reads_the_terminal_after_input(
    relay: RelayView,
    polled: RelayPoll,
    outcome: ReadOutcome,
)
    requires
        polled.input,
    ensures
        ({
            let reading = relay.next(RelayEvent::Polled(Some(polled))).0;
            let (after, turn) = reading.next(RelayEvent::InputRead(outcome));
            let over = match outcome {
                Ok(data) => data@.len() == 0,
                Err(e) => !(e.kind is WouldBlock),
            };
            &&& turn.to_output is None
            &&& over ==> turn.step == RelayStep::Finished && turn.to_terminal is None
            &&& !over ==> match outcome {
                Ok(data) => turn.to_terminal == Some(data@),
                Err(_) => turn.to_terminal is None,
            }
            &&& !over && polled.terminal ==> turn.step == (RelayStep::ReadTerminal {
                count: 16384,
            })
            &&& !over && !polled.terminal && polled.hangup ==> turn.step == RelayStep::Finished
            &&& !over && !polled.terminal && !polled.hangup ==> turn.step == (RelayStep::Poll {
                millis: 100,
            })
            &&& forall|event: RelayEvent| #[trigger]
                after.awaits(event) <==> {
                    ||| turn.step is ReadTerminal && event is TerminalRead
                    ||| turn.step is Poll && event is Polled
                }
        }),
{
}

/// Once the terminal is read, whether or not standard input was read before it in the round, its
/// data goes to standard output, and the relay ends where the terminal hung up in that round or
/// ended the session, and in no other round.
pub proof fn law_relay_ends_on_hangup(
    relay: RelayView,
    polled: RelayPoll,
    input: ReadOutcome,
    outcome: ReadOutcome,
)
    requires
        polled.terminal,
        match input {
            Ok(data) => data@.len() > 0,
            Err(e) => e.kind is WouldBlock,
        },
    ensures
        ({
            let polling = relay.next(RelayEvent::Polled(Some(polled))).0;
            let reading = if polled.input {
                polling.next(RelayEvent::InputRead(input)).0
            } else {
                polling
            };
            let (after, turn) = reading.next(RelayEvent::TerminalRead(outcome));
            let over = match outcome {
                Ok(data) => data@.len() == 0,
                Err(e) => !(e.kind is WouldBlock),
            };
            &&& turn.to_terminal is None
            &&& turn.to_output == match outcome {
                Ok(data) => if data@.len() > 0 {
                    Some(data@)
                } else {
                    None
                },
                Err(_) => None,
            }
            &&& over || polled.hangup ==> turn.step == RelayStep::Finished
            &&& !over && !polled.hangup ==> turn.step == (RelayStep::Poll { millis: 100 })
            &&& turn.step is Poll ==> after.stage == RelayStage::Polling
            &&& turn.step is Finished ==> after.stage == RelayStage::Over
        }),
{
}

} // verus!
