use crate::printer::{
    clear, drain_writes, drained, evicted, expire, expired, flush_writes, pushed, render, show,
    Entry, Slot, Write, SLOT_COUNT,
};
use vstd::prelude::*;

verus! {

/// What the three slots show, first slot first.
pub type Display = Seq<Seq<char>>;

/// The display after one write.
pub open spec fn written(display: Display, write: Write) -> Display {
    display.update(write.slot.index(), write.text)
}

/// The display after `writes` were performed in order.
pub open spec fn displayed(display: Display, writes: Seq<Write>) -> Display
    decreases writes.len(),
{
    if writes.len() == 0 {
        display
    } else {
        written(displayed(display, writes.drop_last()), writes.last())
    }
}

/// What slot `k` shows once a flush at `now` is through: nothing for an expired
/// entry, the entry's text where the flush accepted anything, and else what it
/// showed before.
pub open spec fn slot_after_flush(
    entries: Seq<Entry>,
    queue: Seq<Seq<char>>,
    now: nat,
    delay: nat,
    display: Display,
    k: int,
) -> Seq<char> {
    let after = drained(entries, queue, now);
    if k < after.len() && expired(after[k], now, delay) {
        Seq::empty()
    } else if k < after.len() && queue.len() > 0 {
        after[k].text
    } else {
        display[k]
    }
}

/// The display after flushes at `times`, in order, none of which finds a queued
/// text. Such a flush leaves the kept entries as they are.
pub open spec fn idle_flushes(
    display: Display,
    entries: Seq<Entry>,
    times: Seq<nat>,
    delay: nat,
) -> Display
    decreases times.len(),
{
    if times.len() == 0 {
        display
    } else {
        displayed(
            idle_flushes(display, entries, times.drop_last(), delay),
            flush_writes(entries, Seq::empty(), times.last(), delay),
        )
    }
}

/// Whether each slot with an entry shows that entry as it should look at `now`:
/// its text, or nothing once it has expired.
pub open spec fn reflects(display: Display, entries: Seq<Entry>, now: nat, delay: nat) -> bool {
    &&& display.len() == SLOT_COUNT
    &&& entries.len() <= SLOT_COUNT
    &&& forall|k: int|
        0 <= k < entries.len() ==> #[trigger] display[k] == if expired(entries[k], now, delay) {
            Seq::<char>::empty()
        } else {
            entries[k].text
        }
}

/// Each text of `texts` as an entry accepted at `now`.
pub open spec fn stamped(texts: Seq<Seq<char>>, now: nat) -> Seq<Entry> {
    Seq::new(texts.len(), |i: int| Entry { text: texts[i], inserted_at: now })
}

/// Performing `a` and then `b` is performing `a + b`.
pub proof fn lemma_displayed_concat(display: Display, a: Seq<Write>, b: Seq<Write>)
    ensures
        displayed(display, a + b) == displayed(displayed(display, a), b),
    decreases b.len(),
{
    if b.len() > 0 {
        assert((a + b).drop_last() =~= a + b.drop_last());
        lemma_displayed_concat(display, a, b.drop_last());
    }
}

proof fn lemma_displayed_one(display: Display, write: Write)
    ensures
        displayed(display, seq![write]) == written(display, write),
        displayed(display, Seq::<Write>::empty()) == display,
{
    reveal_with_fuel(displayed, 2);
}

proof fn lemma_show(display: Display, entries: Seq<Entry>, k: int)
    requires
        0 <= k < SLOT_COUNT,
    ensures
        displayed(display, show(entries, k)) == if k < entries.len() {
            display.update(k, entries[k].text)
        } else {
            display
        },
{
    if k < entries.len() {
        lemma_displayed_one(display, Write { slot: Slot::at(k), text: entries[k].text });
    } else {
        lemma_displayed_one(display, Write { slot: Slot::at(k), text: Seq::empty() });
    }
}

proof fn lemma_clear(display: Display, entries: Seq<Entry>, k: int, now: nat, delay: nat)
    requires
        0 <= k < SLOT_COUNT,
    ensures
        displayed(display, clear(entries, k, now, delay)) == if k < entries.len() && expired(
            entries[k],
            now,
            delay,
        ) {
            display.update(k, Seq::<char>::empty())
        } else {
            display
        },
{
    lemma_displayed_one(display, Write { slot: Slot::at(k), text: Seq::empty() });
}

/// Rendering puts each kept entry's text into its slot and leaves the other slots alone.
pub proof fn lemma_render(display: Display, entries: Seq<Entry>)
    requires
        display.len() == SLOT_COUNT,
    ensures
        displayed(display, render(entries)).len() == SLOT_COUNT,
        forall|k: int|
            0 <= k < SLOT_COUNT ==> #[trigger] displayed(display, render(entries))[k] == if k
                < entries.len() {
                entries[k].text
            } else {
                display[k]
            },
{
    let d0 = displayed(display, show(entries, 0));
    let d1 = displayed(d0, show(entries, 1));
    lemma_show(display, entries, 0);
    lemma_show(d0, entries, 1);
    lemma_show(d1, entries, 2);
    lemma_displayed_concat(display, show(entries, 0), show(entries, 1));
    lemma_displayed_concat(display, show(entries, 0) + show(entries, 1), show(entries, 2));
}

/// Expiry blanks each slot whose entry is too old and leaves the other slots alone.
pub proof fn lemma_expire(display: Display, entries: Seq<Entry>, now: nat, delay: nat)
    requires
        display.len() == SLOT_COUNT,
    ensures
        displayed(display, expire(entries, now, delay)).len() == SLOT_COUNT,
        forall|k: int|
            0 <= k < SLOT_COUNT ==> #[trigger] displayed(display, expire(entries, now, delay))[k]
                == if k < entries.len() && expired(entries[k], now, delay) {
                Seq::<char>::empty()
            } else {
                display[k]
            },
{
    let c0 = clear(entries, 0, now, delay);
    let c1 = clear(entries, 1, now, delay);
    let c2 = clear(entries, 2, now, delay);
    let d0 = displayed(display, c0);
    let d1 = displayed(d0, c1);
    lemma_clear(display, entries, 0, now, delay);
    lemma_clear(d0, entries, 1, now, delay);
    lemma_clear(d1, entries, 2, now, delay);
    lemma_displayed_concat(display, c0, c1);
    lemma_displayed_concat(display, c0 + c1, c2);
}

/// A drain leaves as many entries as fit: the old ones and one for each queued text,
/// up to the number of slots.
pub proof fn lemma_drained_len(entries: Seq<Entry>, queue: Seq<Seq<char>>, now: nat)
    requires
        entries.len() <= SLOT_COUNT,
    ensures
        drained(entries, queue, now).len() == if entries.len() + queue.len() <= SLOT_COUNT {
            entries.len() + queue.len()
        } else {
            SLOT_COUNT as nat
        },
    decreases queue.len(),
{
    if queue.len() > 0 {
        lemma_drained_len(entries, queue.drop_last(), now);
    }
}

/// A drain keeps the newest entries: the queued texts, last printed first, then the
/// entries kept before, cut off after the last slot.
pub proof fn lemma_drained_keeps_newest(entries: Seq<Entry>, queue: Seq<Seq<char>>, now: nat)
    requires
        entries.len() <= SLOT_COUNT,
    ensures
        drained(entries, queue, now) == evicted(stamped(queue.reverse(), now) + entries),
    decreases queue.len(),
{
    if queue.len() > 0 {
        lemma_drained_keeps_newest(entries, queue.drop_last(), now);
    }
}

/// What the slots show once a non-empty queue was drained: the texts of the entries
/// that are kept now. Draining nothing writes nothing.
pub proof fn lemma_drain_display(
    display: Display,
    entries: Seq<Entry>,
    queue: Seq<Seq<char>>,
    now: nat,
)
    requires
        display.len() == SLOT_COUNT,
        entries.len() <= SLOT_COUNT,
    ensures
        displayed(display, drain_writes(entries, queue, now)).len() == SLOT_COUNT,
        forall|k: int|
            0 <= k < SLOT_COUNT ==> #[trigger] displayed(
                display,
                drain_writes(entries, queue, now),
            )[k] == if queue.len() > 0 && k < drained(entries, queue, now).len() {
                drained(entries, queue, now)[k].text
            } else {
                display[k]
            },
    decreases queue.len(),
{
    if queue.len() > 0 {
        let rest = queue.drop_last();
        let before = drained(entries, rest, now);
        let grown = pushed(before, queue.last(), now);
        let shown_before = displayed(display, drain_writes(entries, rest, now));
        lemma_drain_display(display, entries, rest, now);
        lemma_drained_len(entries, rest, now);
        lemma_displayed_concat(display, drain_writes(entries, rest, now), render(grown));
        lemma_render(shown_before, grown);
    }
}

/// What each slot shows after a flush.
pub proof fn lemma_flush_display(
    display: Display,
    entries: Seq<Entry>,
    queue: Seq<Seq<char>>,
    now: nat,
    delay: nat,
)
    requires
        display.len() == SLOT_COUNT,
        entries.len() <= SLOT_COUNT,
    ensures
        displayed(display, flush_writes(entries, queue, now, delay)).len() == SLOT_COUNT,
        forall|k: int|
            0 <= k < SLOT_COUNT ==> #[trigger] displayed(
                display,
                flush_writes(entries, queue, now, delay),
            )[k] == slot_after_flush(entries, queue, now, delay, display, k),
{
    let after = drained(entries, queue, now);
    let drawn = displayed(display, drain_writes(entries, queue, now));
    lemma_drain_display(display, entries, queue, now);
    lemma_expire(drawn, after, now, delay);
    lemma_displayed_concat(display, drain_writes(entries, queue, now), expire(after, now, delay));
}

/// After a flush that found texts queued, the slots show the most recently printed
/// texts, newest in the first slot, and the buffer tracks them in that order.
pub proof fn lemma_flush_shows_newest(
    display: Display,
    entries: Seq<Entry>,
    queue: Seq<Seq<char>>,
    now: nat,
    delay: nat,
)
    requires
        display.len() == SLOT_COUNT,
        entries.len() <= SLOT_COUNT,
    ensures
        forall|k: int|
            0 <= k < queue.len() && k < SLOT_COUNT ==> {
                &&& (#[trigger] drained(entries, queue, now)[k]) == Entry {
                    text: queue[queue.len() - 1 - k],
                    inserted_at: now,
                }
                &&& displayed(display, flush_writes(entries, queue, now, delay))[k]
                    == queue[queue.len() - 1 - k]
            },
{
    lemma_drained_keeps_newest(entries, queue, now);
    lemma_drained_len(entries, queue, now);
    lemma_flush_display(display, entries, queue, now, delay);
}

/// When every slot is taken, one more text pushes the oldest kept entry out of
/// the buffer; the two newer ones move down a slot.
pub proof fn lemma_full_buffer_evicts_oldest(entries: Seq<Entry>, text: Seq<char>, now: nat)
    requires
        entries.len() == SLOT_COUNT,
    ensures
        drained(entries, seq![text], now) == seq![
            Entry { text, inserted_at: now },
            entries[0],
            entries[1],
        ],
{
    reveal_with_fuel(drained, 2);
}

/// A flush shows nothing in the slot of an entry that is older than the delay
/// allows. Where the flush found nothing queued, the buffer still tracks that entry.
pub proof fn lemma_expired_slot_is_blank(
    display: Display,
    entries: Seq<Entry>,
    queue: Seq<Seq<char>>,
    now: nat,
    delay: nat,
    k: int,
)
    requires
        display.len() == SLOT_COUNT,
        entries.len() <= SLOT_COUNT,
        0 <= k < drained(entries, queue, now).len(),
        expired(drained(entries, queue, now)[k], now, delay),
    ensures
        displayed(display, flush_writes(entries, queue, now, delay))[k] == Seq::<char>::empty(),
        queue.len() == 0 ==> drained(entries, queue, now) == entries,
{
    lemma_drained_len(entries, queue, now);
    lemma_flush_display(display, entries, queue, now, delay);
}

/// Flushes that find nothing queued leave a slot as it is while its entry has not
/// expired at any of them.
pub proof fn lemma_idle_flushes_keep_slot(
    display: Display,
    entries: Seq<Entry>,
    times: Seq<nat>,
    delay: nat,
    k: int,
)
    requires
        display.len() == SLOT_COUNT,
        entries.len() <= SLOT_COUNT,
        0 <= k < entries.len(),
        forall|j: int| 0 <= j < times.len() ==> !expired(entries[k], #[trigger] times[j], delay),
    ensures
        idle_flushes(display, entries, times, delay).len() == SLOT_COUNT,
        idle_flushes(display, entries, times, delay)[k] == display[k],
    decreases times.len(),
{
    if times.len() > 0 {
        let before = idle_flushes(display, entries, times.drop_last(), delay);
        let none = Seq::<Seq<char>>::empty();
        lemma_idle_flushes_keep_slot(display, entries, times.drop_last(), delay, k);
        lemma_flush_display(before, entries, none, times.last(), delay);
    }
}

/// After any number of prints, one flush at `first` and then flushes at `later`,
/// none of them more than the delay after `first`, the slots show the most
/// recently printed texts, newest in the first slot.
pub proof fn lemma_prints_then_flushes(
    display: Display,
    entries: Seq<Entry>,
    texts: Seq<Seq<char>>,
    first: nat,
    later: Seq<nat>,
    delay: nat,
)
    requires
        display.len() == SLOT_COUNT,
        entries.len() <= SLOT_COUNT,
        forall|j: int| 0 <= j < later.len() ==> #[trigger] later[j] - first <= delay,
    ensures
        forall|k: int|
            0 <= k < texts.len() && k < SLOT_COUNT ==> #[trigger] idle_flushes(
                displayed(display, flush_writes(entries, texts, first, delay)),
                drained(entries, texts, first),
                later,
                delay,
            )[k] == texts[texts.len() - 1 - k],
{
    let kept = drained(entries, texts, first);
    let shown = displayed(display, flush_writes(entries, texts, first, delay));
    lemma_flush_shows_newest(display, entries, texts, first, delay);
    lemma_flush_display(display, entries, texts, first, delay);
    lemma_drained_len(entries, texts, first);
    assert forall|k: int| 0 <= k < texts.len() && k < SLOT_COUNT implies #[trigger] idle_flushes(
        shown,
        kept,
        later,
        delay,
    )[k] == texts[texts.len() - 1 - k] by {
        lemma_idle_flushes_keep_slot(shown, kept, later, delay, k);
    }
}

/// The slots keep showing the newest entries as they should look: if they did so at
/// an earlier time, they do so again after a flush.
pub proof fn lemma_flush_keeps_display_current(
    display: Display,
    entries: Seq<Entry>,
    queue: Seq<Seq<char>>,
    earlier: nat,
    now: nat,
    delay: nat,
)
    requires
        reflects(display, entries, earlier, delay),
        earlier <= now,
    ensures
        reflects(
            displayed(display, flush_writes(entries, queue, now, delay)),
            drained(entries, queue, now),
            now,
            delay,
        ),
{
    lemma_drained_len(entries, queue, now);
    lemma_flush_display(display, entries, queue, now, delay);
}

} // verus!
