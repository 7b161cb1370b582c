use passtrain::config::{Config, Fraction};
use passtrain::controller::{Event, State};
use passtrain::error::TrainingError;
use passtrain::obscure::MASK;
use passtrain::session::{guess_matches, is_quit_key, Key, Phase, Session};
use rand::rngs::StdRng;
use rand::SeedableRng;

#[test]
fn session_starts_in_the_guessing_phase() {
    let session = Session::begin("hunter2", Config::default()).unwrap();
    assert_eq!(session.phase(), Phase::Guessing);
    assert_eq!(session.state(), State { difficulty: 1, attempts: 2 });
    assert_eq!(session.secret_len(), 7);
}

#[test]
fn empty_secret_is_refused() {
    assert!(matches!(Session::begin("", Config::default()), Err(TrainingError::EmptySecret)));
}

#[test]
fn short_secret_starts_with_nothing_hidden() {
    let session = Session::begin("abc", Config::default()).unwrap();
    assert_eq!(session.state(), State { difficulty: 0, attempts: 2 });
    let mut rng = StdRng::seed_from_u64(21);
    assert_eq!(session.hint(&mut rng), "abc");
}

#[test]
fn secret_length_counts_characters() {
    let session = Session::begin("pässwörd€x", Config::default()).unwrap();
    assert_eq!(session.secret_len(), 10);
    assert_eq!(session.state().difficulty, 2);
}

#[test]
fn hint_hides_as_many_characters_as_the_difficulty() {
    let mut rng = StdRng::seed_from_u64(22);
    let mut session = Session::begin("hunter2", Config::default()).unwrap();
    loop {
        let shown = session.hint(&mut rng);
        assert_eq!(shown.chars().count(), 7);
        assert_eq!(shown.chars().filter(|c| *c == MASK).count(), session.state().difficulty);
        match session.submit("hunter2") {
            Some(Event::Complete) => break,
            Some(Event::Raised) => session.resume(false),
            other => panic!("{:?}", other),
        }
    }
    assert_eq!(session.hint(&mut rng), "*******");
}

#[test]
fn right_guess_raises_and_pauses() {
    let mut session = Session::begin("hunter2", Config::default()).unwrap();
    assert_eq!(session.submit("hunter2"), Some(Event::Raised));
    assert_eq!(session.state(), State { difficulty: 2, attempts: 5 });
    assert_eq!(session.phase(), Phase::Pausing);
}

#[test]
fn wrong_guess_costs_a_try_above_the_floor() {
    let mut session = Session::begin("hunter2", Config::default()).unwrap();
    assert_eq!(session.submit("hunter2"), Some(Event::Raised));
    session.resume(false);
    assert_eq!(session.submit("hunter3"), Some(Event::Retry));
    assert_eq!(session.state(), State { difficulty: 2, attempts: 4 });
    assert_eq!(session.phase(), Phase::Pausing);
}

#[test]
fn wrong_guesses_at_the_floor_cost_nothing() {
    let mut session = Session::begin("hunter2", Config::default()).unwrap();
    for _ in 0..10 {
        assert_eq!(session.submit("nope"), Some(Event::Retry));
        assert_eq!(session.state(), State { difficulty: 1, attempts: 2 });
        session.resume(false);
    }
}

#[test]
fn tries_run_out_and_the_difficulty_falls() {
    let mut session = Session::begin("hunter2", Config::default()).unwrap();
    assert_eq!(session.submit("hunter2"), Some(Event::Raised));
    session.resume(false);
    let mut events: Vec<Event> = Vec::new();
    for _ in 0..6 {
        events.push(session.submit("").unwrap());
        session.resume(false);
    }
    let expected: Vec<Event> = vec![
        Event::Retry,
        Event::Retry,
        Event::Retry,
        Event::Retry,
        Event::Retry,
        Event::Lowered,
    ];
    assert_eq!(events, expected);
    assert_eq!(session.state(), State { difficulty: 1, attempts: 5 });
}

#[test]
fn guess_is_compared_exactly() {
    let mut session = Session::begin("hunter2", Config::default()).unwrap();
    for guess in ["Hunter2", "hunter2 ", " hunter2", "hunter", "HUNTER2", ""] {
        assert_eq!(session.submit(guess), Some(Event::Retry), "{:?}", guess);
        session.resume(false);
    }
    assert_eq!(session.submit("hunter2"), Some(Event::Raised));
}

#[test]
fn guess_outside_the_guessing_phase_is_ignored() {
    let mut session = Session::begin("hunter2", Config::default()).unwrap();
    assert_eq!(session.submit("hunter2"), Some(Event::Raised));
    assert_eq!(session.submit("hunter2"), None);
    assert_eq!(session.state(), State { difficulty: 2, attempts: 5 });
    assert_eq!(session.phase(), Phase::Pausing);
}

#[test]
fn answer_outside_the_pause_is_ignored() {
    let mut session = Session::begin("hunter2", Config::default()).unwrap();
    session.resume(true);
    assert_eq!(session.phase(), Phase::Guessing);
    session.resume(false);
    assert_eq!(session.phase(), Phase::Guessing);
}

#[test]
fn going_on_leads_to_the_next_guess() {
    let mut session = Session::begin("hunter2", Config::default()).unwrap();
    session.submit("x");
    session.resume(false);
    assert_eq!(session.phase(), Phase::Guessing);
}

#[test]
fn quitting_finishes_the_session() {
    let mut session = Session::begin("hunter2", Config::default()).unwrap();
    session.submit("hunter2");
    session.resume(true);
    assert_eq!(session.phase(), Phase::Finished);
    assert_eq!(session.submit("hunter2"), None);
    session.resume(false);
    assert_eq!(session.phase(), Phase::Finished);
    assert_eq!(session.state(), State { difficulty: 2, attempts: 5 });
}

#[test]
fn right_guesses_complete_the_training() {
    let mut session = Session::begin("hunter2", Config::default()).unwrap();
    let mut difficulties: Vec<usize> = Vec::new();
    let mut last: Option<Event> = None;
    while session.phase() == Phase::Guessing {
        difficulties.push(session.state().difficulty);
        last = session.submit("hunter2");
        session.resume(false);
    }
    assert_eq!(difficulties, vec![1, 2, 4, 6, 7]);
    assert_eq!(last, Some(Event::Complete));
    assert_eq!(session.phase(), Phase::Finished);
    assert_eq!(session.state(), State { difficulty: 7, attempts: 5 });
}

#[test]
fn one_character_secret_completes_after_one_raise() {
    let mut session = Session::begin("x", Config::default()).unwrap();
    assert_eq!(session.state().difficulty, 0);
    assert_eq!(session.submit("x"), Some(Event::Raised));
    assert_eq!(session.state(), State { difficulty: 1, attempts: 5 });
    session.resume(false);
    assert_eq!(session.submit("y"), Some(Event::Retry));
    assert_eq!(session.state(), State { difficulty: 1, attempts: 5 });
    session.resume(false);
    assert_eq!(session.submit("x"), Some(Event::Complete));
    assert_eq!(session.phase(), Phase::Finished);
}

#[test]
fn session_with_other_constants() {
    let config = Config {
        max_attempts: 2,
        starting_attempts: 1,
        starting_difficulty: Fraction { numerator: 1, denominator: 2 },
        max_difficulty_increase: Fraction { numerator: 1, denominator: 4 },
    };
    assert!(config.is_valid());
    let mut session = Session::begin("abcdefgh", config).unwrap();
    assert_eq!(session.state(), State { difficulty: 4, attempts: 1 });
    assert_eq!(session.submit("abcdefgh"), Some(Event::Raised));
    assert_eq!(session.state(), State { difficulty: 5, attempts: 2 });
    session.resume(false);
    assert_eq!(session.submit("abcdefgh"), Some(Event::Raised));
    assert_eq!(session.state(), State { difficulty: 7, attempts: 2 });
}

#[test]
fn quit_key_is_q_in_either_case() {
    assert!(is_quit_key(Key::Char('q')));
    assert!(is_quit_key(Key::Char('Q')));
    assert!(!is_quit_key(Key::Char('x')));
    assert!(!is_quit_key(Key::Char(' ')));
    assert!(!is_quit_key(Key::Char('\n')));
    assert!(!is_quit_key(Key::Other));
}

#[test]
fn guesses_match_character_for_character() {
    assert!(guess_matches("hunter2", "hunter2"));
    assert!(guess_matches("", ""));
    assert!(guess_matches("pässwörd", "pässwörd"));
    assert!(!guess_matches("Hunter2", "hunter2"));
    assert!(!guess_matches("hunter", "hunter2"));
    assert!(!guess_matches("hunter22", "hunter2"));
    assert!(!guess_matches("", "hunter2"));
}
