//! The conversational fallback: the canned replies used when the language
//! model backend is unavailable or bypassed.
use vstd::prelude::*;

verus! {

use crate::textutil::contains_seq;
use crate::textutil::lower_of;
use crate::textutil::str_contains;
use crate::textutil::to_lowercase;

/// The canned reply for a lower-cased message: matched in order on a few
/// phrases, with a generic acknowledgement otherwise.
pub open spec fn fallback_chars(lm: Seq<char>) -> Seq<char> {
    if contains_seq(lm, "who am i"@) {
        "I am One Engine v0.2, a metacognitive AI system with self-awareness capabilities."@
    } else if contains_seq(lm, "hello"@) {
        "Hello! I'm One Engine, ready to assist with metacognitive validation and adaptive control."@
    } else if contains_seq(lm, "help"@) {
        "I can process tasks with uncertainty tracking, trust calibration, and failure awareness. Try asking about my capabilities!"@
    } else {
        "I'm processing your request with metacognitive awareness. How can I help you today?"@
    }
}

/// Produces the canned conversational reply for a message, without the
/// language-model backend.
pub fn process_meta_prompt(_system: &str, message: &str, _self_obs: Option<&str>) -> (r: String)
    ensures
        r@ == fallback_chars(lower_of(message@)),
{
    let lowered = to_lowercase(message);
    let lm = lowered.as_str();
    let reply: &str = if str_contains(lm, "who am i") {
        "I am One Engine v0.2, a metacognitive AI system with self-awareness capabilities."
    } else if str_contains(lm, "hello") {
        "Hello! I'm One Engine, ready to assist with metacognitive validation and adaptive control."
    } else if str_contains(lm, "help") {
        "I can process tasks with uncertainty tracking, trust calibration, and failure awareness. Try asking about my capabilities!"
    } else {
        "I'm processing your request with metacognitive awareness. How can I help you today?"
    };
    String::from_str(reply)
}

} // verus!
