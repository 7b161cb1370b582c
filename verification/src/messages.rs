//! What the drill says to the user: the lines that a front end prints.

use vstd::prelude::*;
use crate::controller::{Event, State};

verus! {

/// Printed once, when the program starts.
pub const TITLE: &'static str = "Passtrain helps you remember passwords through repetition";

/// Asks for the secret to memorize.
pub const SECRET_PROMPT: &'static str = "Enter the password you would like to memorize: ";

/// Asks, after a round, whether to go on.
pub const CONTINUE_PROMPT: &'static str = "press any key to continue (q to quit)";

/// Follows a right guess.
pub const SUCCESS: &'static str = "✅ Success!";

/// Follows the right guess that ends the training.
pub const COMPLETE: &'static str = "Full password length memorized, training complete!";

/// Follows a right guess that raises the difficulty.
pub const RAISING: &'static str = "⏫ Raising difficulty level";

/// Follows the wrong guess that lowers the difficulty.
pub const LOWERING: &'static str = "⏬ Max attempts failed, lowering difficulty level..";

/// The decimal digit for a number below ten.
pub open spec fn digit(d: nat) -> char {
    ('0' as nat + d) as char
}

/// A number written in decimal, without leading zeros.
pub open spec fn decimal(n: nat) -> Seq<char>
    decreases n,
{
    if n < 10 {
        seq![digit(n)]
    } else {
        decimal(n / 10).push(digit(n % 10))
    }
}

/// The line that tells where the session stands.
pub open spec fn status_text(state: State, secret_len: usize) -> Seq<char> {
    "Difficulty "@ + decimal(state.difficulty as nat) + "/"@ + decimal(secret_len as nat)
        + ", attempts remaining "@ + decimal(state.attempts as nat)
}

/// The prompt that shows a hint and asks for the guess.
pub open spec fn prompt_text(hint: Seq<char>) -> Seq<char> {
    "Enter password (hint "@ + hint + ")"@
}

/// The line that follows a wrong guess.
pub open spec fn incorrect_text(guess: Seq<char>) -> Seq<char> {
    "❌ Incorrect password ("@ + guess + ")"@
}

/// The lines that tell what a round did.
pub open spec fn feedback_text(event: Event, guess: Seq<char>) -> Seq<Seq<char>> {
    match event {
        Event::Complete => seq![SUCCESS@, COMPLETE@],
        Event::Raised => seq![SUCCESS@, RAISING@],
        Event::Lowered => seq![incorrect_text(guess), LOWERING@],
        Event::Retry => seq![incorrect_text(guess)],
    }
}

/// Appends a number in decimal to a text.
pub fn push_decimal(text: &mut String, n: u64)
    ensures
        final(text)@ == old(text)@ + decimal(n as nat),
    decreases n,
{
    if n >= 10 {
        push_decimal(text, n / 10);
    }
    let last: u8 = (n % 10) as u8;
    text.push((48u8 + last) as char);
}

/// Tells where the session stands.
pub fn status_line(state: State, secret_len: usize) -> (line: String)
    ensures
        line@ == status_text(state, secret_len),
{
    let mut line: String = String::from_str("Difficulty ");
    push_decimal(&mut line, state.difficulty as u64);
    line.append("/");
    push_decimal(&mut line, secret_len as u64);
    line.append(", attempts remaining ");
    push_decimal(&mut line, state.attempts as u64);
    line
}

/// Shows a hint and asks for the guess.
pub fn hint_prompt(hint: &str) -> (prompt: String)
    ensures
        prompt@ == prompt_text(hint@),
{
    let mut prompt: String = String::from_str("Enter password (hint ");
    prompt.append(hint);
    prompt.append(")");
    prompt
}

/// Tells what a round did: whether the guess was right, and what became of
/// the difficulty.
pub fn feedback(event: Event, guess: &str) -> (lines: Vec<String>)
    ensures
        lines.deep_view() == feedback_text(event, guess@),
{
    let mut lines: Vec<String> = Vec::new();
    match event {
        Event::Complete => {
            lines.push(String::from_str(SUCCESS));
            lines.push(String::from_str(COMPLETE));
        },
        Event::Raised => {
            lines.push(String::from_str(SUCCESS));
            lines.push(String::from_str(RAISING));
        },
        Event::Lowered => {
            lines.push(incorrect_line(guess));
            lines.push(String::from_str(LOWERING));
        },
        Event::Retry => {
            lines.push(incorrect_line(guess));
        },
    }
    lines
}

/// Tells that a guess was wrong, and repeats it.
pub fn incorrect_line(guess: &str) -> (line: String)
    ensures
        line@ == incorrect_text(guess@),
{
    let mut line: String = String::from_str("❌ Incorrect password (");
    line.append(guess);
    line.append(")");
    line
}

} // verus!
