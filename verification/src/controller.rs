//! The difficulty controller: how one guess moves the session's state.

use vstd::math::{max, min};
use vstd::prelude::*;
use crate::config::Config;
use crate::error::TrainingError;

verus! {

/// Where a session stands between two rounds.
#[derive(Clone, Copy, Debug, PartialEq, Eq, Structural)]
pub struct State {
    /// Number of characters hidden in the hint.
    pub difficulty: usize,
    /// Tries left at this difficulty.
    pub attempts: u32,
}

/// What a round did to the session.
#[derive(Clone, Copy, Debug, PartialEq, Eq, Structural)]
pub enum Event {
    /// The whole secret was hidden and the guess was right.
    Complete,
    /// The guess was right and more is hidden from now on.
    Raised,
    /// The tries ran out and less is hidden from now on.
    Lowered,
    /// The guess was wrong and the difficulty stays.
    Retry,
}

/// The least `q` with `q * d >= n`, for `n >= 0` and `d > 0`.
pub open spec fn ceil_div(n: int, d: int) -> int {
    if n % d == 0 {
        n / d
    } else {
        n / d + 1
    }
}

/// `ceil(secret_len * max_difficulty_increase * attempts / max_attempts)`.
pub open spec fn jump(secret_len: nat, attempts: nat, config: Config) -> nat {
    ceil_div(
        secret_len * config.max_difficulty_increase.numerator * attempts,
        config.max_difficulty_increase.denominator * config.max_attempts,
    ) as nat
}

/// The difficulty after a success below the secret's length: up by the jump,
/// by one at least, and never past the length.
pub open spec fn raised(difficulty: nat, secret_len: nat, jump: nat) -> nat {
    min(secret_len as int, max((difficulty + jump) as int, (difficulty + 1) as int)) as nat
}

/// The state in which a session over a secret of `secret_len` characters starts.
pub open spec fn initial(secret_len: nat, config: Config) -> State {
    State {
        difficulty: config.starting_difficulty.floor_of(secret_len) as usize,
        attempts: config.starting_attempts,
    }
}

/// Whether a state respects the bounds of a session over `secret_len`
/// characters: no more is hidden than there is, and no more tries are left
/// than a difficulty grants.
pub open spec fn in_bounds(state: State, secret_len: usize, config: Config) -> bool {
    state.difficulty <= secret_len && state.attempts <= config.max_attempts
}

/// The controller's rule for a state whose difficulty does not exceed the
/// secret's length: the state and the event that follow a guess.
pub open spec fn advanced(state: State, secret_len: usize, guess_correct: bool, config: Config) -> (
    State,
    Event,
) {
    if guess_correct {
        if state.difficulty == secret_len {
            (state, Event::Complete)
        } else {
            let step = jump(secret_len as nat, state.attempts as nat, config);
            (
                State {
                    difficulty: raised(state.difficulty as nat, secret_len as nat, step) as usize,
                    attempts: config.max_attempts,
                },
                Event::Raised,
            )
        }
    } else if state.difficulty > 1 {
        if state.attempts == 0 {
            (
                State { difficulty: (state.difficulty - 1) as usize, attempts: config.max_attempts },
                Event::Lowered,
            )
        } else {
            (
                State { difficulty: state.difficulty, attempts: (state.attempts - 1) as u32 },
                Event::Retry,
            )
        }
    } else {
        (state, Event::Retry)
    }
}

/// The outcome of a guess in any state: the controller's rule, or the refusal
/// of a difficulty that lies above the secret's length.
pub open spec fn next(state: State, secret_len: usize, guess_correct: bool, config: Config) -> Result<
    (State, Event),
    TrainingError,
> {
    if state.difficulty > secret_len {
        Err(TrainingError::InvalidState)
    } else {
        Ok(advanced(state, secret_len, guess_correct, config))
    }
}

/// The state after a run of rounds, one guess after the other, `true` for
/// each right guess.
pub open spec fn replay(state: State, secret_len: usize, config: Config, guesses: Seq<bool>) -> State
    decreases guesses.len(),
{
    if guesses.len() == 0 {
        state
    } else {
        advanced(
            replay(state, secret_len, config, guesses.drop_last()),
            secret_len,
            guesses.last(),
            config,
        ).0
    }
}

/// `ceil_div` is the ceiling of the quotient: the least multiple count that
/// reaches `n`.
pub proof fn lemma_ceil_div_is_least(n: int, d: int)
    requires
        0 <= n,
        0 < d,
    ensures
        0 <= ceil_div(n, d),
        ceil_div(n, d) * d >= n,
        (ceil_div(n, d) - 1) * d < n,
{
    let q = n / d;
    let r = n % d;
    assert(n == q * d + r && 0 <= r < d && 0 <= q) by (nonlinear_arith)
        requires
            0 <= n,
            0 < d,
            q == n / d,
            r == n % d,
    ;
    assert((q + 1) * d == q * d + d && (q - 1) * d == q * d - d) by (nonlinear_arith);
}

/// Computes the jump that a success with `attempts` tries left earns.
pub fn difficulty_jump(secret_len: usize, attempts: u32, config: &Config) -> (step: u128)
    requires
        config.wf(),
    ensures
        step == jump(secret_len as nat, attempts as nat, *config),
{
    let share: u32 = config.max_difficulty_increase.numerator;
    let whole: u32 = config.max_difficulty_increase.denominator;
    assert(secret_len * share <= 0xffff_ffff_ffff_ffff * 0xffff_ffff) by (nonlinear_arith)
        requires
            secret_len <= 0xffff_ffff_ffff_ffff,
            share <= 0xffff_ffff,
    ;
    assert(secret_len * share * attempts <= 0xffff_ffff_ffff_ffff * 0xffff_ffff * 0xffff_ffff)
        by (nonlinear_arith)
        requires
            secret_len * share <= 0xffff_ffff_ffff_ffff * 0xffff_ffff,
            0 <= secret_len * share,
            attempts <= 0xffff_ffff,
    ;
    assert(1 <= whole * config.max_attempts <= 0xffff_ffff * 0xffff_ffff) by (nonlinear_arith)
        requires
            1 <= whole <= 0xffff_ffff,
            1 <= config.max_attempts <= 0xffff_ffff,
    ;
    let scaled: u128 = (secret_len as u128) * (share as u128) * (attempts as u128);
    let unit: u128 = (whole as u128) * (config.max_attempts as u128);
    let quotient: u128 = scaled / unit;
    if scaled % unit == 0 {
        quotient
    } else {
        quotient + 1
    }
}

/// Computes the state in which a session starts.
pub fn initial_state(secret_len: usize, config: &Config) -> (state: State)
    requires
        config.wf(),
    ensures
        state == initial(secret_len as nat, *config),
        state.difficulty <= secret_len,
{
    let share: u32 = config.starting_difficulty.numerator;
    let whole: u32 = config.starting_difficulty.denominator;
    assert(secret_len * share <= 0xffff_ffff_ffff_ffff * 0xffff_ffff) by (nonlinear_arith)
        requires
            secret_len <= 0xffff_ffff_ffff_ffff,
            share <= 0xffff_ffff,
    ;
    let scaled: u128 = (secret_len as u128) * (share as u128);
    let hidden: u128 = scaled / (whole as u128);
    assert(hidden <= secret_len) by (nonlinear_arith)
        requires
            hidden == (secret_len * share) / (whole as int),
            0 < whole,
            share <= whole,
            0 <= secret_len,
    ;
    State { difficulty: hidden as usize, attempts: config.starting_attempts }
}

/// Applies the controller's rule to a state whose difficulty does not exceed
/// the secret's length.
pub(crate) fn advance(state: State, secret_len: usize, guess_correct: bool, config: &Config) -> (outcome:
    (State, Event))
    requires
        config.wf(),
        state.difficulty <= secret_len,
    ensures
        outcome == advanced(state, secret_len, guess_correct, *config),
{
    if guess_correct {
        if state.difficulty == secret_len {
            (state, Event::Complete)
        } else {
            let step: u128 = difficulty_jump(secret_len, state.attempts, config);
            let room: usize = secret_len - state.difficulty;
            let gain: usize = if step >= room as u128 {
                room
            } else if step >= 1 {
                step as usize
            } else {
                1
            };
            (
                State { difficulty: state.difficulty + gain, attempts: config.max_attempts },
                Event::Raised,
            )
        }
    } else if state.difficulty > 1 {
        if state.attempts == 0 {
            (
                State { difficulty: state.difficulty - 1, attempts: config.max_attempts },
                Event::Lowered,
            )
        } else {
            (State { difficulty: state.difficulty, attempts: state.attempts - 1 }, Event::Retry)
        }
    } else {
        (state, Event::Retry)
    }
}

/// Advances the session by one guess.
///
/// A right guess with the whole secret hidden completes the training and
/// leaves the state as it is. Any other right guess raises the difficulty and
/// refills the tries. A wrong guess above difficulty one costs a try, or, with
/// none left, lowers the difficulty by one and refills the tries; at
/// difficulty one or zero it costs nothing. A difficulty above the secret's
/// length is refused as `InvalidState`.
pub fn transition(state: State, secret_len: usize, guess_correct: bool, config: &Config) -> (outcome:
    Result<(State, Event), TrainingError>)
    requires
        config.wf(),
    ensures
        outcome == next(state, secret_len, guess_correct, *config),
{
    if state.difficulty > secret_len {
        Err(TrainingError::InvalidState)
    } else {
        Ok(advance(state, secret_len, guess_correct, config))
    }
}

/// The jump never shrinks as the tries left grow.
pub proof fn lemma_jump_monotonic(secret_len: nat, fewer: nat, more: nat, config: Config)
    requires
        config.wf(),
        fewer <= more,
    ensures
        jump(secret_len, fewer, config) <= jump(secret_len, more, config),
{
    let weight = secret_len * config.max_difficulty_increase.numerator;
    let unit = config.max_difficulty_increase.denominator * config.max_attempts;
    assert(0 <= weight * fewer <= weight * more && 0 < unit) by (nonlinear_arith)
        requires
            0 <= weight,
            fewer <= more,
            unit == config.max_difficulty_increase.denominator * config.max_attempts,
            0 < config.max_difficulty_increase.denominator,
            0 < config.max_attempts,
    ;
    lemma_ceil_div_is_least(weight * fewer, unit);
    lemma_ceil_div_is_least(weight * more, unit);
    let low = ceil_div(weight * fewer, unit);
    let high = ceil_div(weight * more, unit);
    assert(low <= high) by (nonlinear_arith)
        requires
            0 < unit,
            high * unit >= weight * more,
            weight * more >= weight * fewer,
            (low - 1) * unit < weight * fewer,
    ;
}

/// Training completes exactly on a right guess with the whole secret hidden,
/// and completing leaves the state as it was.
pub proof fn lemma_complete_keeps_state(state: State, secret_len: usize, guess_correct: bool, config: Config)
    requires
        state.difficulty <= secret_len,
    ensures
        advanced(state, secret_len, guess_correct, config).1 == Event::Complete <==> guess_correct
            && state.difficulty == secret_len,
        advanced(state, secret_len, guess_correct, config).1 == Event::Complete ==> advanced(
            state,
            secret_len,
            guess_correct,
            config,
        ).0 == state,
        state.difficulty == secret_len ==> next(state, secret_len, true, config) == Ok::<
            (State, Event),
            TrainingError,
        >((state, Event::Complete)),
{
}

/// With the whole secret hidden, right guesses, however many, leave the state
/// as it was.
pub proof fn lemma_complete_is_idempotent(state: State, secret_len: usize, config: Config, guesses: Seq<bool>)
    requires
        state.difficulty == secret_len,
        forall|i: int| 0 <= i < guesses.len() ==> guesses[i],
    ensures
        replay(state, secret_len, config, guesses) == state,
{
    lemma_replay_fixed(state, secret_len, config, guesses);
}

/// A state that a guess of either kind leaves alone, where every guess of the
/// run is of a kind that leaves it alone, is the state after the whole run.
proof fn lemma_replay_fixed(state: State, secret_len: usize, config: Config, guesses: Seq<bool>)
    requires
        forall|i: int|
            0 <= i < guesses.len() ==> advanced(state, secret_len, #[trigger] guesses[i], config).0
                == state,
    ensures
        replay(state, secret_len, config, guesses) == state,
    decreases guesses.len(),
{
    if guesses.len() > 0 {
        lemma_replay_fixed(state, secret_len, config, guesses.drop_last());
    }
}

/// A success below the secret's length raises the difficulty by one at least,
/// never past the length, and refills the tries.
pub proof fn lemma_success_raises(state: State, secret_len: usize, config: Config)
    requires
        state.difficulty < secret_len,
    ensures
        advanced(state, secret_len, true, config).1 == Event::Raised,
        state.difficulty + 1 <= advanced(state, secret_len, true, config).0.difficulty <= secret_len,
        advanced(state, secret_len, true, config).0.attempts == config.max_attempts,
{
}

/// Right guesses in a row raise the difficulty by one each at least, until
/// the whole secret is hidden.
pub proof fn lemma_successes_reach_full_length(
    state: State,
    secret_len: usize,
    config: Config,
    guesses: Seq<bool>,
)
    requires
        state.difficulty <= secret_len,
        forall|i: int| 0 <= i < guesses.len() ==> guesses[i],
    ensures
        replay(state, secret_len, config, guesses).difficulty <= secret_len,
        replay(state, secret_len, config, guesses).difficulty >= min(
            secret_len as int,
            state.difficulty + guesses.len(),
        ),
    decreases guesses.len(),
{
    if guesses.len() > 0 {
        lemma_successes_reach_full_length(state, secret_len, config, guesses.drop_last());
    }
}

/// A session starts within its bounds.
pub proof fn lemma_initial_in_bounds(secret_len: usize, config: Config)
    requires
        config.wf(),
    ensures
        in_bounds(initial(secret_len as nat, config), secret_len, config),
{
    let share = config.starting_difficulty.numerator;
    let whole = config.starting_difficulty.denominator;
    assert(0 <= (secret_len * share) / (whole as int) <= secret_len) by (nonlinear_arith)
        requires
            0 < whole,
            0 <= share <= whole,
            0 <= secret_len,
    ;
}

/// Whenever a round changes the difficulty, up or down, the tries are
/// refilled.
pub proof fn lemma_change_refills_tries(state: State, secret_len: usize, guess_correct: bool, config: Config)
    requires
        state.difficulty <= secret_len,
    ensures
        advanced(state, secret_len, guess_correct, config).0.difficulty != state.difficulty
            ==> advanced(state, secret_len, guess_correct, config).0.attempts
            == config.max_attempts,
{
}

/// One round keeps a state within its bounds, and keeps the difficulty at one
/// or above once it is there.
pub proof fn lemma_round_keeps_bounds(state: State, secret_len: usize, guess_correct: bool, config: Config)
    requires
        in_bounds(state, secret_len, config),
    ensures
        in_bounds(advanced(state, secret_len, guess_correct, config).0, secret_len, config),
        1 <= state.difficulty ==> 1 <= advanced(
            state,
            secret_len,
            guess_correct,
            config,
        ).0.difficulty,
{
}

/// Whatever the guesses, a session that starts within its bounds stays within
/// them: the difficulty never exceeds the secret's length. Once the difficulty
/// is one or more, it never falls below one again.
pub proof fn lemma_replay_keeps_bounds(state: State, secret_len: usize, config: Config, guesses: Seq<bool>)
    requires
        in_bounds(state, secret_len, config),
    ensures
        in_bounds(replay(state, secret_len, config, guesses), secret_len, config),
        1 <= state.difficulty ==> 1 <= replay(state, secret_len, config, guesses).difficulty,
    decreases guesses.len(),
{
    if guesses.len() > 0 {
        lemma_replay_keeps_bounds(state, secret_len, config, guesses.drop_last());
        lemma_round_keeps_bounds(
            replay(state, secret_len, config, guesses.drop_last()),
            secret_len,
            guesses.last(),
            config,
        );
    }
}

/// At difficulty one the floor is reached: wrong guesses, however many, cost
/// neither a try nor a character of difficulty.
pub proof fn lemma_floor_is_stable(state: State, secret_len: usize, config: Config, guesses: Seq<bool>)
    requires
        state.difficulty <= 1,
        forall|i: int| 0 <= i < guesses.len() ==> !guesses[i],
    ensures
        advanced(state, secret_len, false, config) == (state, Event::Retry),
        replay(state, secret_len, config, guesses) == state,
{
    lemma_replay_fixed(state, secret_len, config, guesses);
}

} // verus!
