//! A training session: the rounds that a front end plays with the user.
//!
//! The front end owns the terminal. The session tells it what comes next, a
//! guess or a key press, and takes in what the user answered.

use rand::rngs::StdRng;
use vstd::prelude::*;
use crate::config::Config;
use crate::controller::{
    advance, advanced, in_bounds, initial, initial_state, lemma_round_keeps_bounds, Event, State,
};
use crate::error::TrainingError;
use crate::obscure::{hide_some, is_obscured};

verus! {

/// What a session waits for.
#[derive(Clone, Copy, Debug, PartialEq, Eq, Structural)]
pub enum Phase {
    /// A hint is due, and then the user's guess.
    Guessing,
    /// A round is over, and the user decides whether to go on.
    Pausing,
    /// Training is complete or the user has quit.
    Finished,
}

/// A session as the contracts see it.
pub struct SessionView {
    pub secret: Seq<char>,
    pub config: Config,
    pub state: State,
    pub phase: Phase,
}

impl SessionView {
    /// The secret is not empty, the constants are valid and the state is
    /// within its bounds.
    pub open spec fn wf(self) -> bool {
        &&& 1 <= self.secret.len() <= usize::MAX
        &&& self.config.wf()
        &&& in_bounds(self.state, self.secret.len() as usize, self.config)
    }

    /// The session after a guess, and the event that the guess caused. Outside
    /// the guessing phase a guess is ignored.
    pub open spec fn submit(self, guess: Seq<char>) -> (SessionView, Option<Event>) {
        if self.phase == Phase::Guessing {
            let (state, event) = advanced(
                self.state,
                self.secret.len() as usize,
                guess == self.secret,
                self.config,
            );
            let phase = if event == Event::Complete {
                Phase::Finished
            } else {
                Phase::Pausing
            };
            (SessionView { state, phase, ..self }, Some(event))
        } else {
            (self, None)
        }
    }

    /// The session after the user's answer in the pause between two rounds:
    /// to quit or to go on. Outside the pause the answer is ignored.
    pub open spec fn resume(self, quit: bool) -> SessionView {
        if self.phase == Phase::Pausing {
            let phase = if quit {
                Phase::Finished
            } else {
                Phase::Guessing
            };
            SessionView { phase, ..self }
        } else {
            self
        }
    }
}

/// A key press, as far as the session cares.
#[derive(Clone, Copy, Debug, PartialEq, Eq, Structural)]
pub enum Key {
    /// A key that stands for a character.
    Char(char),
    /// Any other key.
    Other,
}

/// Whether a key asks to quit: `q`, in either case.
pub open spec fn quits(key: Key) -> bool {
    key == Key::Char('q') || key == Key::Char('Q')
}

/// Tells whether a key asks to quit.
pub fn is_quit_key(key: Key) -> (quit: bool)
    ensures
        quit == quits(key),
{
    match key {
        Key::Char(c) => c == 'q' || c == 'Q',
        Key::Other => false,
    }
}

/// Tells whether a guess is the secret, character for character.
pub fn guess_matches(guess: &str, secret: &str) -> (same: bool)
    ensures
        same == (guess@ == secret@),
{
    let given: String = guess.to_owned();
    let wanted: String = secret.to_owned();
    given == wanted
}

/// A well-formed session stays well-formed, whatever the user answers.
pub proof fn lemma_session_stays_wf(session: SessionView, guess: Seq<char>, quit: bool)
    requires
        session.wf(),
    ensures
        session.submit(guess).0.wf(),
        session.resume(quit).wf(),
{
    lemma_round_keeps_bounds(
        session.state,
        session.secret.len() as usize,
        guess == session.secret,
        session.config,
    );
}

/// A session finishes on a guess exactly when the guess is the secret and the
/// whole secret was hidden; the state is then left as it was.
pub proof fn lemma_session_completes(session: SessionView, guess: Seq<char>)
    requires
        session.wf(),
        session.phase == Phase::Guessing,
    ensures
        session.submit(guess).0.phase == Phase::Finished <==> guess == session.secret
            && session.state.difficulty == session.secret.len(),
        session.submit(guess).0.phase == Phase::Finished ==> session.submit(guess).0.state
            == session.state,
{
}

/// A finished session stays as it is, whatever the user answers.
pub proof fn lemma_finished_is_final(session: SessionView, guess: Seq<char>, quit: bool)
    requires
        session.phase == Phase::Finished,
    ensures
        session.submit(guess) == (session, None::<Event>),
        session.resume(quit) == session,
{
}

/// A running session over one secret.
pub struct Session {
    secret: String,
    secret_len: usize,
    config: Config,
    state: State,
    phase: Phase,
}

impl View for Session {
    type V = SessionView;

    closed spec fn view(&self) -> SessionView {
        SessionView {
            secret: self.secret@,
            config: self.config,
            state: self.state,
            phase: self.phase,
        }
    }
}

impl Session {
    #[verifier::type_invariant]
    spec fn inv(self) -> bool {
        self@.wf() && self.secret_len == self.secret@.len()
    }

    /// Starts a session over `secret`. An empty secret is refused.
    pub fn begin(secret: &str, config: Config) -> (started: Result<Session, TrainingError>)
        requires
            config.wf(),
        ensures
            started is Ok <==> secret@.len() > 0,
            started matches Err(refusal) ==> refusal == TrainingError::EmptySecret,
            started matches Ok(session) ==> session@ == (SessionView {
                secret: secret@,
                config,
                state: initial(secret@.len(), config),
                phase: Phase::Guessing,
            }) && session@.wf(),
    {
        let secret_len: usize = secret.unicode_len();
        if secret_len == 0 {
            return Err(TrainingError::EmptySecret);
        }
        let state: State = initial_state(secret_len, &config);
        Ok(Session { secret: secret.to_owned(), secret_len, config, state, phase: Phase::Guessing })
    }

    /// What the session waits for.
    pub fn phase(&self) -> (phase: Phase)
        ensures
            phase == self@.phase,
    {
        self.phase
    }

    /// The difficulty and the tries left.
    pub fn state(&self) -> (state: State)
        ensures
            state == self@.state,
            self@.wf(),
    {
        proof {
            use_type_invariant(self);
        }
        self.state
    }

    /// The number of characters of the secret.
    pub fn secret_len(&self) -> (len: usize)
        ensures
            len == self@.secret.len(),
    {
        proof {
            use_type_invariant(self);
        }
        self.secret_len
    }

    /// The hint for the round at hand: the secret with as many characters
    /// masked as the difficulty says.
    pub fn hint(&self, rng: &mut StdRng) -> (shown: String)
        ensures
            is_obscured(self@.secret, self@.state.difficulty as nat, shown@),
    {
        proof {
            use_type_invariant(self);
        }
        hide_some(self.secret.as_str(), self.secret_len, self.state.difficulty, rng)
    }

    /// Takes in the user's guess and tells what it caused.
    pub fn submit(&mut self, guess: &str) -> (event: Option<Event>)
        ensures
            final(self)@ == old(self)@.submit(guess@).0,
            event == old(self)@.submit(guess@).1,
            final(self)@.wf(),
    {
        proof {
            use_type_invariant(&*self);
        }
        match self.phase {
            Phase::Guessing => {
                let correct: bool = guess_matches(guess, self.secret.as_str());
                let (state, event) = advance(self.state, self.secret_len, correct, &self.config);
                self.state = state;
                self.phase = match event {
                    Event::Complete => Phase::Finished,
                    _ => Phase::Pausing,
                };
                Some(event)
            },
            _ => None,
        }
    }

    /// Takes in the user's answer after a round: to quit or to go on.
    pub fn resume(&mut self, quit: bool)
        ensures
            final(self)@ == old(self)@.resume(quit),
            final(self)@.wf(),
    {
        proof {
            use_type_invariant(&*self);
        }
        match self.phase {
            Phase::Pausing => {
                self.phase = if quit {
                    Phase::Finished
                } else {
                    Phase::Guessing
                };
            },
            _ => {},
        }
    }
}

} // verus!
