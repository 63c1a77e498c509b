use vstd::prelude::*;

use crate::dict::{DictModel, Dictionary};
use crate::score::{feedback, feedback_string};
use crate::words::{is_word_shape, word_has_shape};

verus! {

/// The states of one game session. `AwaitingGuess` is the only
/// non-terminal state; the other four are terminal.
#[derive(Clone, Copy, Debug, PartialEq, Eq, Structural)]
pub enum Phase {
    /// Blocked on the next inbound message.
    AwaitingGuess,
    /// The client guessed the secret word.
    Won,
    /// The sixth scored attempt was not a win.
    LostExhausted,
    /// The peer disconnected, sent an unreadable frame, sent a close
    /// frame, or a send failed.
    Disconnected,
    /// The peer sent a frame type the protocol does not accept.
    ProtocolViolation,
}

/// A state is terminal exactly when it is not awaiting a guess.
pub open spec fn is_terminal(p: Phase) -> bool {
    p != Phase::AwaitingGuess
}

/// One inbound occurrence on the channel, as the session core sees it.
pub enum Event {
    /// A text frame carrying a guess payload.
    Text(String),
    /// A close control frame.
    Close,
    /// The channel yielded no message, or an unreadable frame.
    Gone,
    /// A frame of any type other than text or close.
    Other,
    /// A response could not be delivered.
    SendFailed,
}

/// Mathematical model of an event: the guess payload as a character
/// sequence.
pub ghost enum EventModel {
    Text(Seq<char>),
    Close,
    Gone,
    Other,
    SendFailed,
}

impl View for Event {
    type V = EventModel;

    open spec fn view(&self) -> EventModel {
        match self {
            Event::Text(g) => EventModel::Text(g@),
            Event::Close => EventModel::Close,
            Event::Gone => EventModel::Gone,
            Event::Other => EventModel::Other,
            Event::SendFailed => EventModel::SendFailed,
        }
    }
}

/// Mathematical model of a session: the secret word, the number of
/// scored attempts, and the protocol state.
pub ghost struct SessionModel {
    pub secret: Seq<char>,
    pub attempts: nat,
    pub phase: Phase,
}

/// The maximum number of scored attempts in one session.
pub const MAX_ATTEMPTS: u8 = 6;

/// Session well-formedness: the secret is a well-shaped word, at most
/// six attempts are ever counted, and a session still awaiting a guess
/// has an attempt left.
pub open spec fn session_wf(s: SessionModel) -> bool {
    &&& is_word_shape(s.secret)
    &&& s.attempts <= MAX_ATTEMPTS
    &&& s.phase == Phase::AwaitingGuess ==> s.attempts < MAX_ATTEMPTS
}

/// Response to a guess whose shape check failed.
pub open spec fn shape_error_msg() -> Seq<char> {
    "invalid:The word must be 5 letters long."@
}

/// Response to a well-shaped guess found in neither word pool.
pub open spec fn word_error_msg() -> Seq<char> {
    "invalid:That is not a word."@
}

/// Response carrying the per-position feedback symbols.
pub open spec fn result_msg(fb: Seq<char>) -> Seq<char> {
    "result:"@ + fb
}

/// Response revealing the secret after the last attempt is lost.
pub open spec fn final_msg(w: Seq<char>) -> Seq<char> {
    "final:"@ + w
}

/// The session state machine: from a state and an inbound event to the
/// next state and the responses to send, in order. A terminal session
/// ignores every event and sends nothing.
pub open spec fn step(s: SessionModel, d: DictModel, ev: EventModel) -> (SessionModel, Seq<
    Seq<char>,
>) {
    if is_terminal(s.phase) {
        (s, Seq::empty())
    } else {
        match ev {
            EventModel::Text(g) => {
                if !is_word_shape(g) {
                    (s, seq![shape_error_msg()])
                } else if !d.accepts(g) {
                    (s, seq![word_error_msg()])
                } else {
                    let fb = feedback(s.secret, g);
                    let scored = SessionModel {
                        secret: s.secret,
                        attempts: (s.attempts + 1) as nat,
                        phase: s.phase,
                    };
                    if g == s.secret {
                        (
                            SessionModel { phase: Phase::Won, ..scored },
                            seq![result_msg(fb)],
                        )
                    } else if s.attempts + 1 == MAX_ATTEMPTS {
                        (
                            SessionModel { phase: Phase::LostExhausted, ..scored },
                            seq![result_msg(fb), final_msg(s.secret)],
                        )
                    } else {
                        (scored, seq![result_msg(fb)])
                    }
                }
            },
            EventModel::Close => (SessionModel { phase: Phase::Disconnected, ..s }, Seq::empty()),
            EventModel::Gone => (SessionModel { phase: Phase::Disconnected, ..s }, Seq::empty()),
            EventModel::Other => (
                SessionModel { phase: Phase::ProtocolViolation, ..s },
                Seq::empty(),
            ),
            EventModel::SendFailed => (
                SessionModel { phase: Phase::Disconnected, ..s },
                Seq::empty(),
            ),
        }
    }
}

/// Feeding the same invalid guess to a waiting session twice yields the
/// same `invalid:` response twice, leaves the session unchanged, and
/// never changes the attempt count.
pub proof fn lemma_invalid_guess_idempotent(s: SessionModel, d: DictModel, g: Seq<char>)
    requires
        s.phase == Phase::AwaitingGuess,
        !is_word_shape(g) || !d.accepts(g),
    ensures
        step(s, d, EventModel::Text(g)).0 == s,
        step(s, d, EventModel::Text(g)).0.attempts == s.attempts,
        step(step(s, d, EventModel::Text(g)).0, d, EventModel::Text(g)) == step(
            s,
            d,
            EventModel::Text(g),
        ),
        step(s, d, EventModel::Text(g)).1 == (if !is_word_shape(g) {
            seq![shape_error_msg()]
        } else {
            seq![word_error_msg()]
        }),
{
}

/// Attempt accounting: a guess that passes both the shape check and
/// the membership check raises the attempt count by exactly one,
/// whatever it scores; any other event leaves the count unchanged.
pub proof fn lemma_attempt_accounting(s: SessionModel, d: DictModel, ev: EventModel)
    requires
        s.phase == Phase::AwaitingGuess,
    ensures
        (match ev {
            EventModel::Text(g) => is_word_shape(g) && d.accepts(g),
            _ => false,
        }) ==> step(s, d, ev).0.attempts == s.attempts + 1,
        !(match ev {
            EventModel::Text(g) => is_word_shape(g) && d.accepts(g),
            _ => false,
        }) ==> step(s, d, ev).0.attempts == s.attempts,
{
}

/// Termination exclusivity: once a session is in a terminal state, no
/// event changes it and no further message is sent.
pub proof fn lemma_terminal_is_final(s: SessionModel, d: DictModel, ev: EventModel)
    requires
        is_terminal(s.phase),
    ensures
        step(s, d, ev).0 == s,
        step(s, d, ev).1 == Seq::<Seq<char>>::empty(),
{
}

/// A step from a well-formed session yields a well-formed session, and
/// never leaves a terminal state other than by staying in it.
pub proof fn lemma_step_preserves_wf(s: SessionModel, d: DictModel, ev: EventModel)
    requires
        session_wf(s),
    ensures
        session_wf(step(s, d, ev).0),
        step(s, d, ev).0.secret == s.secret,
{
}

/// One game session: the secret word, the attempts scored so far, and
/// the protocol state.
pub struct Session {
    secret: String,
    attempts: u8,
    phase: Phase,
}

impl View for Session {
    type V = SessionModel;

    closed spec fn view(&self) -> SessionModel {
        SessionModel { secret: self.secret@, attempts: self.attempts as nat, phase: self.phase }
    }
}

impl Session {
    /// Starts a session with a secret drawn at random from the
    /// dictionary's answer pool and no attempts used.
    pub fn new(dict: &Dictionary) -> (s: Session)
        requires
            dict.wf(),
        ensures
            session_wf(s@),
            s@.phase == Phase::AwaitingGuess,
            s@.attempts == 0,
            dict@.answers.contains(s@.secret),
    {
        let secret = dict.pick_secret();
        Session { secret, attempts: 0, phase: Phase::AwaitingGuess }
    }

    /// Starts a session with the given secret word, so that a caller
    /// may fix the selection; `None` when the word is not well shaped.
    pub fn with_secret(secret: String) -> (r: Option<Session>)
        ensures
            match r {
                Some(s) => {
                    &&& is_word_shape(secret@)
                    &&& session_wf(s@)
                    &&& s@.secret == secret@
                    &&& s@.phase == Phase::AwaitingGuess
                    &&& s@.attempts == 0
                },
                None => !is_word_shape(secret@),
            },
    {
        if !word_has_shape(secret.as_str()) {
            return None;
        }
        Some(Session { secret, attempts: 0, phase: Phase::AwaitingGuess })
    }

    /// The protocol state of the session.
    pub fn phase(&self) -> (p: Phase)
        ensures
            p == self@.phase,
    {
        self.phase
    }

    /// The number of scored attempts so far.
    pub fn attempts_used(&self) -> (a: u8)
        ensures
            a as nat == self@.attempts,
    {
        self.attempts
    }

    /// Feeds one inbound event to the session and returns the responses
    /// to send, in order: exactly one step of the state machine.
    pub fn on_event(&mut self, dict: &Dictionary, ev: &Event) -> (msgs: Vec<String>)
        requires
            dict.wf(),
            session_wf(old(self)@),
        ensures
            final(self)@ == step(old(self)@, dict@, ev@).0,
            msgs.deep_view() == step(old(self)@, dict@, ev@).1,
            session_wf(final(self)@),
    {
        let mut msgs: Vec<String> = Vec::new();
        if self.phase != Phase::AwaitingGuess {
            proof {
                assert(msgs.deep_view() =~= Seq::<Seq<char>>::empty());
            }
            return msgs;
        }
        match ev {
            Event::Text(g) => {
                if !word_has_shape(g.as_str()) {
                    msgs.push(String::from_str("invalid:The word must be 5 letters long."));
                    proof {
                        assert(msgs.deep_view() =~= seq![shape_error_msg()]);
                    }
                    return msgs;
                }
                if !dict.is_valid_guess(g.as_str()) {
                    msgs.push(String::from_str("invalid:That is not a word."));
                    proof {
                        assert(msgs.deep_view() =~= seq![word_error_msg()]);
                    }
                    return msgs;
                }
                let fb = feedback_string(self.secret.as_str(), g.as_str());
                let mut result = String::from_str("result:");
                result.append(fb.as_str());
                msgs.push(result);
                self.attempts = self.attempts + 1;
                if self.secret.eq(g) {
                    self.phase = Phase::Won;
                    proof {
                        assert(msgs.deep_view() =~= seq![
                            result_msg(feedback(old(self)@.secret, g@)),
                        ]);
                    }
                } else if self.attempts == MAX_ATTEMPTS {
                    self.phase = Phase::LostExhausted;
                    let mut last = String::from_str("final:");
                    last.append(self.secret.as_str());
                    msgs.push(last);
                    proof {
                        assert(msgs.deep_view() =~= seq![
                            result_msg(feedback(old(self)@.secret, g@)),
                            final_msg(old(self)@.secret),
                        ]);
                    }
                } else {
                    proof {
                        assert(msgs.deep_view() =~= seq![
                            result_msg(feedback(old(self)@.secret, g@)),
                        ]);
                    }
                }
                msgs
            },
            Event::Close => {
                self.phase = Phase::Disconnected;
                proof {
                    assert(msgs.deep_view() =~= Seq::<Seq<char>>::empty());
                }
                msgs
            },
            Event::Gone => {
                self.phase = Phase::Disconnected;
                proof {
                    assert(msgs.deep_view() =~= Seq::<Seq<char>>::empty());
                }
                msgs
            },
            Event::Other => {
                self.phase = Phase::ProtocolViolation;
                proof {
                    assert(msgs.deep_view() =~= Seq::<Seq<char>>::empty());
                }
                msgs
            },
            Event::SendFailed => {
                self.phase = Phase::Disconnected;
                proof {
                    assert(msgs.deep_view() =~= Seq::<Seq<char>>::empty());
                }
                msgs
            },
        }
    }
}

} // verus!
