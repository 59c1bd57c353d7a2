//! The texts that a session is made of: the seed that opens it, the prompt of
//! each turn, and the tags that mark who speaks.

use vstd::prelude::*;

verus! {

/// A speaker's tag followed by a colon: the mark at which that speaker's turn
/// begins.
pub open spec fn tag_mark(tag: Seq<char>) -> Seq<char> {
    tag + ":"@
}

/// What the reader is prompted with: the user's tag, a colon and a space.
pub open spec fn input_prompt_text(user_tag: Seq<char>) -> Seq<char> {
    user_tag + ": "@
}

/// A line of the script: the speaker's tag, a colon, a space, and what is
/// said.
pub open spec fn spoken_line(tag: Seq<char>, words: Seq<char>) -> Seq<char> {
    tag + ": "@ + words
}

/// The text that seeds a session: the persona, and on a line of its own the
/// history so far.
pub open spec fn seed_text(persona: Seq<char>, history: Seq<char>) -> Seq<char> {
    persona + "\n"@ + history
}

/// The prompt of one turn: the user's line under the user's tag, and on the
/// next line the assistant's tag with a colon, for the assistant to go on
/// from.
pub open spec fn turn_prompt(user_tag: Seq<char>, line: Seq<char>, assistant_tag: Seq<char>) -> Seq<
    char,
> {
    user_tag + ": "@ + line + "\n"@ + assistant_tag + ":"@
}

/// Writes a speaker's mark.
pub fn format_tag_mark(tag: &str) -> (mark: String)
    ensures
        mark@ == tag_mark(tag@),
{
    String::from_str(tag).concat(":")
}

/// Writes the prompt that the reader shows.
pub fn format_input_prompt(user_tag: &str) -> (prompt: String)
    ensures
        prompt@ == input_prompt_text(user_tag@),
{
    String::from_str(user_tag).concat(": ")
}

/// Writes a line of the script.
pub fn format_spoken_line(tag: &str, words: &str) -> (line: String)
    ensures
        line@ == spoken_line(tag@, words@),
{
    String::from_str(tag).concat(": ").concat(words)
}

/// Writes the text that seeds a session.
pub fn format_seed(persona: &str, history: &str) -> (seed: String)
    ensures
        seed@ == seed_text(persona@, history@),
{
    String::from_str(persona).concat("\n").concat(history)
}

/// Writes the prompt of one turn.
pub fn format_turn(user_tag: &str, line: &str, assistant_tag: &str) -> (prompt: String)
    ensures
        prompt@ == turn_prompt(user_tag@, line@, assistant_tag@),
{
    String::from_str(user_tag).concat(": ").concat(line).concat("\n").concat(assistant_tag).concat(
        ":",
    )
}

} // verus!
