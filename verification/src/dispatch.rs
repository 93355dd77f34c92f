use crate::text::{all_whitespace, lemma_trimmed_of_padded, to_chars, trim, trimmed};
use rand::rngs::ThreadRng;
use rand::seq::SliceRandom;
use vstd::prelude::*;

verus! {

/// The handle to the random number generator of the current thread, as `rand`
/// hands it out. Nothing inside it is visible to the proofs.
#[verifier::external_type_specification]
#[verifier::external_body]
pub struct ExThreadRng(rand::rngs::ThreadRng);

/// Calls `rand::thread_rng`, which hands out the generator that `rand` keeps for
/// the calling thread. Nothing is claimed of the generator. The call panics in
/// one case only: the first call on a thread, where the system gives no seed.
#[verifier::external_body]
fn thread_rng() -> ThreadRng {
    rand::thread_rng()
}

/// Calls `rand::seq::SliceRandom::choose` on a slice. Trusted of it: an empty slice
/// gives nothing, and any other slice gives one of its own elements. Which one
/// depends on the generator, so nothing more is claimed.
#[verifier::external_body]
fn choose_random<'a, T>(items: &'a [T], rng: &mut ThreadRng) -> (chosen: Option<&'a T>)
    ensures
        chosen is None <==> items@.len() == 0,
        chosen matches Some(item) ==> exists|i: int| 0 <= i < items@.len() && items@[i] == *item,
{
    items.choose(rng)
}

/// What a dispatch job asks of the sound engine, as a value.
pub enum Request {
    Idle,
    StopAll,
    Find(Seq<char>),
}

/// What a dispatch job asks of the sound engine.
#[derive(Clone, Debug, PartialEq, Eq)]
pub enum EngineRequest {
    /// Nothing: there is no engine yet.
    Idle,
    /// Stop every sound that is playing.
    StopAll,
    /// Look up the sounds that match this text.
    Find(String),
}

impl View for EngineRequest {
    type V = Request;

    open spec fn view(&self) -> Request {
        match self {
            EngineRequest::Idle => Request::Idle,
            EngineRequest::StopAll => Request::StopAll,
            EngineRequest::Find(query) => Request::Find(query@),
        }
    }
}

/// Whether `text` is the stop command: the word `sh`, in any casing.
pub open spec fn is_stop_command(text: Seq<char>) -> bool {
    &&& text.len() == 2
    &&& (text[0] == 's' || text[0] == 'S')
    &&& (text[1] == 'h' || text[1] == 'H')
}

/// What a job asks of the engine for `trigger`: nothing without an engine, else to
/// stop all sounds for the stop command, else to look up the trimmed trigger.
pub open spec fn request_for(engine_ready: bool, trigger: Seq<char>) -> Request {
    if !engine_ready {
        Request::Idle
    } else if is_stop_command(trimmed(trigger)) {
        Request::StopAll
    } else {
        Request::Find(trimmed(trigger))
    }
}

/// The stop command is recognised in any casing and with any white space around
/// it: the engine is then asked to stop all sounds, and nothing is looked up.
pub proof fn lemma_stop_command_any_case_and_padding(
    before: Seq<char>,
    s: char,
    h: char,
    after: Seq<char>,
)
    requires
        all_whitespace(before),
        all_whitespace(after),
        s == 's' || s == 'S',
        h == 'h' || h == 'H',
    ensures
        request_for(true, before + seq![s, h] + after) == Request::StopAll,
{
    let word = seq![s, h];
    lemma_trimmed_of_padded(before, word, after);
}

/// Decides what the job for `trigger` asks of the engine. `engine_ready` says
/// whether the engine exists by the time the job has hold of it.
pub fn dispatch(engine_ready: bool, trigger: &str) -> (request: EngineRequest)
    ensures
        request@ == request_for(engine_ready, trigger@),
{
    if !engine_ready {
        return EngineRequest::Idle;
    }
    let query = trim(trigger);
    let chars = to_chars(query);
    if chars.len() == 2 && (chars[0] == 's' || chars[0] == 'S') && (chars[1] == 'h' || chars[1]
        == 'H') {
        EngineRequest::StopAll
    } else {
        EngineRequest::Find(query.to_owned())
    }
}

/// Picks at random the sound to play among the candidates that the engine found.
/// No candidate means no sound.
pub fn choose_sound<'a, T>(candidates: &'a [T]) -> (chosen: Option<&'a T>)
    ensures
        chosen is None <==> candidates@.len() == 0,
        chosen matches Some(sound) ==> candidates@.contains(*sound),
{
    let mut rng = thread_rng();
    choose_random(candidates, &mut rng)
}

} // verus!
