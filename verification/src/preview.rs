use crate::display::{displayed, lemma_flush_shows_newest, Display};
use crate::printer::{flush_writes, Entry, Printer, SLOT_COUNT};
use crate::text::{trim, trimmed};
use vstd::prelude::*;

verus! {

/// How many search results a preview shows at most.
pub const PREVIEW_LIMIT: usize = 3;

/// A key of the host, as far as the preview cares.
#[derive(Clone, Copy, Debug, PartialEq, Eq, Structural)]
pub enum Key {
    /// The key that asks for a preview.
    Tab,
    /// Any other key.
    Other,
}

/// The text to search for when a key goes down: the trimmed chat input, if the chat
/// input is open, the key is the preview key and the input holds more than white
/// space.
pub open spec fn preview_query(chat_open: bool, key: Key, input: Seq<char>) -> Option<Seq<char>> {
    if chat_open && key == Key::Tab && trimmed(input).len() > 0 {
        Some(trimmed(input))
    } else {
        None
    }
}

/// The results that a preview shows: the first few, best first.
pub open spec fn previewed(results: Seq<Seq<char>>) -> Seq<Seq<char>> {
    if results.len() > PREVIEW_LIMIT {
        results.take(PREVIEW_LIMIT as int)
    } else {
        results
    }
}

/// The lines that a preview prints, in the order in which it prints them: the
/// best result last.
pub open spec fn preview_lines(results: Seq<Seq<char>>) -> Seq<Seq<char>> {
    previewed(results).reverse()
}

/// The scratch value after a preview: the best result, or what it was where
/// nothing was found.
pub open spec fn best_match(results: Seq<Seq<char>>, scratch: Option<Seq<char>>) -> Option<
    Seq<char>,
> {
    if results.len() > 0 {
        Some(results[0])
    } else {
        scratch
    }
}

/// Once the lines of a preview are flushed, the slots show the results in order of
/// relevance: the best one in the first slot.
pub proof fn lemma_preview_shows_best_first(
    display: Display,
    entries: Seq<Entry>,
    queue: Seq<Seq<char>>,
    results: Seq<Seq<char>>,
    now: nat,
    delay: nat,
)
    requires
        display.len() == SLOT_COUNT,
        entries.len() <= SLOT_COUNT,
    ensures
        forall|k: int|
            0 <= k < results.len() && k < PREVIEW_LIMIT ==> #[trigger] displayed(
                display,
                flush_writes(entries, queue + preview_lines(results), now, delay),
            )[k] == results[k],
{
    lemma_flush_shows_newest(display, entries, queue + preview_lines(results), now, delay);
}

/// Decides, when a key goes down, whether to preview: returns the text to search
/// the engine for, or nothing.
pub fn on_key_down(chat_open: bool, key: Key, input: &str) -> (query: Option<String>)
    ensures
        query.deep_view() == preview_query(chat_open, key, input@),
{
    if !chat_open {
        return None;
    }
    match key {
        Key::Other => None,
        Key::Tab => {
            let text = trim(input);
            if text.unicode_len() == 0 {
                None
            } else {
                Some(text.to_owned())
            }
        },
    }
}

/// Prints the first few results of a search, best last, so that the best one ends
/// up in the first slot, and notes the best one in `scratch`.
pub fn preview_results(results: &Vec<String>, printer: &mut Printer, scratch: &mut Option<String>)
    ensures
        final(printer).queue() == old(printer).queue() + preview_lines(results.deep_view()),
        final(printer).entries() == old(printer).entries(),
        final(printer).remove_delay() == old(printer).remove_delay(),
        final(scratch).deep_view() == best_match(results.deep_view(), old(scratch).deep_view()),
{
    let ghost lines = preview_lines(results.deep_view());
    let n = if results.len() > PREVIEW_LIMIT {
        PREVIEW_LIMIT
    } else {
        results.len()
    };
    let mut i = n;
    while i > 0
        invariant
            i <= n,
            n == lines.len(),
            n <= results.len(),
            lines == preview_lines(results.deep_view()),
            printer.queue() == old(printer).queue() + lines.take(n - i),
            printer.entries() == old(printer).entries(),
            printer.remove_delay() == old(printer).remove_delay(),
        decreases i,
    {
        i -= 1;
        let line = results[i].clone();
        assert(line@ == lines[n - 1 - i]);
        printer.print(line);
    }
    if n > 0 {
        *scratch = Some(results[0].clone());
    }
}

} // verus!
