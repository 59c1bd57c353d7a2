//! Seeding: before the first turn the persona and the history are fed to the
//! session, and every token of them is shown as it is fed.

use vstd::prelude::*;
use crate::filter::{concat, token_texts, Emission, Feedback};

verus! {

/// Takes one token of the seed: it is shown whole, and feeding goes on.
pub fn accept_seed_token(token: &str) -> (out: Emission)
    ensures
        out.text@ == token@,
        out.feedback == Feedback::Continue,
{
    Emission { text: String::from_str(token), feedback: Feedback::Continue }
}

/// All that is shown while a stream of seed tokens is fed: the text of the
/// stream.
pub fn echo_seed_tokens(tokens: &Vec<String>) -> (shown: String)
    ensures
        shown@ == concat(token_texts(tokens@)),
{
    let ghost texts = token_texts(tokens@);
    let mut shown = String::new();
    let mut i: usize = 0;
    while i < tokens.len()
        invariant
            i <= tokens.len(),
            texts == token_texts(tokens@),
            shown@ == concat(texts.take(i as int)),
        decreases tokens.len() - i,
    {
        let out = accept_seed_token(tokens[i].as_str());
        shown.append(out.text.as_str());
        proof {
            assert(texts.take(i + 1).drop_last() =~= texts.take(i as int));
            assert(texts.take(i + 1).last() == tokens@[i as int]@);
        }
        i += 1;
    }
    proof {
        assert(texts.take(tokens.len() as int) =~= texts);
    }
    shown
}

} // verus!
