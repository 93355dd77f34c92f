use std::collections::VecDeque;
use vstd::prelude::*;

verus! {

/// How many entries are on display at once.
pub const SLOT_COUNT: usize = 3;

/// Age, in nanoseconds, beyond which a displayed entry is blanked.
pub const REMOVE_DELAY_NANOS: u64 = 10_000_000_000;

/// One of the three overlay positions, newest first.
#[derive(Clone, Copy, Debug, PartialEq, Eq, Structural)]
pub enum Slot {
    First,
    Second,
    Third,
}

impl Slot {
    /// Position of the slot, counted from the newest entry.
    pub open spec fn index(self) -> int {
        match self {
            Slot::First => 0,
            Slot::Second => 1,
            Slot::Third => 2,
        }
    }

    /// The slot that shows the entry at position `k` (the last slot for any `k > 1`).
    pub open spec fn at(k: int) -> Slot {
        if k <= 0 {
            Slot::First
        } else if k == 1 {
            Slot::Second
        } else {
            Slot::Third
        }
    }

    /// The slot's number as the host counts it: 1, 2 or 3.
    pub fn number(self) -> (n: u8)
        ensures
            n == self.index() + 1,
    {
        match self {
            Slot::First => 1,
            Slot::Second => 2,
            Slot::Third => 3,
        }
    }
}

/// What a notification is, as a value: its text and the time it was accepted.
pub struct Entry {
    pub text: Seq<char>,
    pub inserted_at: nat,
}

/// A text shown on the overlay, with the time at which a flush accepted it.
#[derive(Clone, Debug, PartialEq, Eq)]
pub struct Notification {
    pub text: String,
    pub inserted_at: u64,
}

impl View for Notification {
    type V = Entry;

    open spec fn view(&self) -> Entry {
        Entry { text: self.text@, inserted_at: self.inserted_at as nat }
    }
}

impl DeepView for Notification {
    type V = Entry;

    open spec fn deep_view(&self) -> Entry {
        self@
    }
}

/// What a slot write is, as a value.
pub struct Write {
    pub slot: Slot,
    pub text: Seq<char>,
}

/// An instruction for the host: put `text` into `slot`.
#[derive(Clone, Debug, PartialEq, Eq)]
pub struct SlotWrite {
    pub slot: Slot,
    pub text: String,
}

impl View for SlotWrite {
    type V = Write;

    open spec fn view(&self) -> Write {
        Write { slot: self.slot, text: self.text@ }
    }
}

impl DeepView for SlotWrite {
    type V = Write;

    open spec fn deep_view(&self) -> Write {
        self@
    }
}

/// Whether `entry` is older at `now` than `delay` allows. An entry stamped after
/// `now` has no age.
pub open spec fn expired(entry: Entry, now: nat, delay: nat) -> bool {
    now - entry.inserted_at > delay
}

/// The write that shows the entry at position `k`, if there is one.
pub open spec fn show(entries: Seq<Entry>, k: int) -> Seq<Write> {
    if 0 <= k < entries.len() {
        seq![Write { slot: Slot::at(k), text: entries[k].text }]
    } else {
        Seq::empty()
    }
}

/// The writes that put the three newest entries into their slots, first slot first.
pub open spec fn render(entries: Seq<Entry>) -> Seq<Write> {
    show(entries, 0) + show(entries, 1) + show(entries, 2)
}

/// The write that blanks slot `k`, if its entry has expired.
pub open spec fn clear(entries: Seq<Entry>, k: int, now: nat, delay: nat) -> Seq<Write> {
    if 0 <= k < entries.len() && expired(entries[k], now, delay) {
        seq![Write { slot: Slot::at(k), text: Seq::empty() }]
    } else {
        Seq::empty()
    }
}

/// The writes that blank every slot whose entry has expired, first slot first.
pub open spec fn expire(entries: Seq<Entry>, now: nat, delay: nat) -> Seq<Write> {
    clear(entries, 0, now, delay) + clear(entries, 1, now, delay) + clear(entries, 2, now, delay)
}

/// `entries` with a new entry for `text` in front.
pub open spec fn pushed(entries: Seq<Entry>, text: Seq<char>, now: nat) -> Seq<Entry> {
    seq![Entry { text, inserted_at: now }] + entries
}

/// `entries` without what lies beyond the slots.
pub open spec fn evicted(entries: Seq<Entry>) -> Seq<Entry> {
    if entries.len() > SLOT_COUNT {
        entries.take(SLOT_COUNT as int)
    } else {
        entries
    }
}

/// The entries held after every text of `queue` was accepted at `now`, in order.
pub open spec fn drained(entries: Seq<Entry>, queue: Seq<Seq<char>>, now: nat) -> Seq<Entry>
    decreases queue.len(),
{
    if queue.len() == 0 {
        entries
    } else {
        evicted(pushed(drained(entries, queue.drop_last(), now), queue.last(), now))
    }
}

/// The writes issued while `queue` is accepted: after each text, the slots are
/// rendered anew.
pub open spec fn drain_writes(entries: Seq<Entry>, queue: Seq<Seq<char>>, now: nat) -> Seq<Write>
    decreases queue.len(),
{
    if queue.len() == 0 {
        Seq::empty()
    } else {
        drain_writes(entries, queue.drop_last(), now) + render(
            pushed(drained(entries, queue.drop_last(), now), queue.last(), now),
        )
    }
}

/// Every write of one flush: those of the drain, then the blanking of expired slots.
pub open spec fn flush_writes(
    entries: Seq<Entry>,
    queue: Seq<Seq<char>>,
    now: nat,
    delay: nat,
) -> Seq<Write> {
    drain_writes(entries, queue, now) + expire(drained(entries, queue, now), now, delay)
}

/// Puts the entry at position `k` into its slot, if there is one.
fn show_slot(held: &VecDeque<Notification>, k: usize, slot: Slot, writes: &mut Vec<SlotWrite>)
    requires
        k < SLOT_COUNT,
        slot == Slot::at(k as int),
    ensures
        final(writes).deep_view() == old(writes).deep_view() + show(held.deep_view(), k as int),
{
    if k < held.len() {
        let text = held[k].text.clone();
        writes.push(SlotWrite { slot, text });
    }
}

/// Blanks slot `k` if its entry is older at `now` than `delay` allows.
fn clear_slot(
    held: &VecDeque<Notification>,
    k: usize,
    slot: Slot,
    now: u64,
    delay: u64,
    writes: &mut Vec<SlotWrite>,
)
    requires
        k < SLOT_COUNT,
        slot == Slot::at(k as int),
    ensures
        final(writes).deep_view() == old(writes).deep_view() + clear(
            held.deep_view(),
            k as int,
            now as nat,
            delay as nat,
        ),
{
    if k < held.len() {
        let inserted_at = held[k].inserted_at;
        if now > inserted_at && now - inserted_at > delay {
            writes.push(SlotWrite { slot, text: String::new() });
        }
    }
}

/// Accepts one text at `now`: it goes in front, the slots are rendered anew, and
/// the entry that no longer fits leaves.
fn accept(held: &mut VecDeque<Notification>, text: String, now: u64, writes: &mut Vec<SlotWrite>)
    requires
        old(held)@.len() <= SLOT_COUNT,
    ensures
        final(held)@.len() <= SLOT_COUNT,
        final(held).deep_view() == evicted(pushed(old(held).deep_view(), text@, now as nat)),
        final(writes).deep_view() == old(writes).deep_view() + render(
            pushed(old(held).deep_view(), text@, now as nat),
        ),
{
    held.push_front(Notification { text, inserted_at: now });
    show_slot(held, 0, Slot::First, writes);
    show_slot(held, 1, Slot::Second, writes);
    show_slot(held, 2, Slot::Third, writes);
    if held.len() == 4 {
        held.pop_back();
    }
}

/// The notification buffer behind the overlay: texts queued by `print`, and the
/// newest entries that `flush` has accepted. It is meant to sit behind a lock:
/// any thread prints, the host's thread alone flushes.
pub struct Printer {
    queue: Vec<String>,
    last_messages: VecDeque<Notification>,
    remove_delay: u64,
}

impl Printer {
    /// Texts printed since the last flush, oldest first.
    pub closed spec fn queue(&self) -> Seq<Seq<char>> {
        self.queue.deep_view()
    }

    /// Entries that the overlay holds, newest first.
    pub closed spec fn entries(&self) -> Seq<Entry> {
        self.last_messages.deep_view()
    }

    /// Age beyond which an entry is shown as empty.
    pub closed spec fn remove_delay(&self) -> nat {
        self.remove_delay as nat
    }

    /// Between calls the buffer holds no more entries than there are slots.
    #[verifier::type_invariant]
    spec fn within_slots(&self) -> bool {
        self.last_messages@.len() <= SLOT_COUNT
    }

    /// An empty buffer with the standard expiry delay.
    pub fn new() -> (printer: Printer)
        ensures
            printer.queue() == Seq::<Seq<char>>::empty(),
            printer.entries() == Seq::<Entry>::empty(),
            printer.remove_delay() == REMOVE_DELAY_NANOS,
    {
        let printer = Printer {
            queue: Vec::new(),
            last_messages: VecDeque::with_capacity(4),
            remove_delay: REMOVE_DELAY_NANOS,
        };
        printer
    }

    /// How many texts wait for the next flush.
    pub fn pending(&self) -> (n: usize)
        ensures
            n == self.queue().len(),
    {
        self.queue.len()
    }

    /// How many entries the buffer holds: never more than there are slots.
    pub fn len(&self) -> (n: usize)
        ensures
            n == self.entries().len(),
            n <= SLOT_COUNT,
    {
        proof {
            use_type_invariant(self);
        }
        self.last_messages.len()
    }

    /// The entry at position `k`, counted from the newest, if there is one.
    pub fn entry(&self, k: usize) -> (found: Option<Notification>)
        ensures
            found.deep_view() == if k < self.entries().len() {
                Some(self.entries()[k as int])
            } else {
                None
            },
    {
        if k < self.last_messages.len() {
            let held = &self.last_messages[k];
            Some(Notification { text: held.text.clone(), inserted_at: held.inserted_at })
        } else {
            None
        }
    }

    /// Age, in nanoseconds, beyond which an entry is shown as empty.
    pub fn delay(&self) -> (nanos: u64)
        ensures
            nanos == self.remove_delay(),
    {
        self.remove_delay
    }

    /// Queues `text` for the next flush. Nothing is displayed yet.
    pub fn print(&mut self, text: String)
        ensures
            final(self).queue() == old(self).queue().push(text@),
            final(self).entries() == old(self).entries(),
            final(self).remove_delay() == old(self).remove_delay(),
    {
        proof {
            use_type_invariant(&*self);
        }
        // The queue grows outside the buffer, which stays whole meanwhile.
        let mut queue: Vec<String> = Vec::new();
        core::mem::swap(&mut self.queue, &mut queue);
        queue.push(text);
        core::mem::swap(&mut self.queue, &mut queue);
    }

    /// Accepts every queued text at time `now`, oldest first, and returns the slot
    /// writes for the host to perform, in order. `now` counts nanoseconds from a
    /// moment of the caller's choice, the same at every call.
    pub fn flush(&mut self, now: u64) -> (writes: Vec<SlotWrite>)
        ensures
            final(self).queue() == Seq::<Seq<char>>::empty(),
            final(self).entries() == drained(old(self).entries(), old(self).queue(), now as nat),
            final(self).entries().len() <= SLOT_COUNT,
            final(self).remove_delay() == old(self).remove_delay(),
            writes.deep_view() == flush_writes(
                old(self).entries(),
                old(self).queue(),
                now as nat,
                old(self).remove_delay(),
            ),
    {
        proof {
            use_type_invariant(&*self);
        }
        let ghost entries0 = self.entries();
        let ghost queue0 = self.queue();
        let delay = self.remove_delay;
        let mut writes: Vec<SlotWrite> = Vec::new();
        let mut queued: Vec<String> = Vec::new();
        let mut held: VecDeque<Notification> = VecDeque::new();
        // Both lists are worked on outside the buffer: while a text is accepted,
        // one entry more is held than the buffer may hold between calls.
        core::mem::swap(&mut self.queue, &mut queued);
        core::mem::swap(&mut self.last_messages, &mut held);
        for text in it: queued
            invariant
                it.seq().len() == queue0.len(),
                forall|j: int| 0 <= j < queue0.len() ==> (#[trigger] it.seq()[j])@ == queue0[j],
                held@.len() <= SLOT_COUNT,
                held.deep_view() == drained(entries0, queue0.take(it.index() as int), now as nat),
                writes.deep_view() == drain_writes(
                    entries0,
                    queue0.take(it.index() as int),
                    now as nat,
                ),
        {
            proof {
                let next = queue0.take(it.index() + 1);
                assert(next.drop_last() =~= queue0.take(it.index() as int));
            }
            accept(&mut held, text, now, &mut writes);
        }
        assert(queue0.take(queue0.len() as int) =~= queue0);
        clear_slot(&held, 0, Slot::First, now, delay, &mut writes);
        clear_slot(&held, 1, Slot::Second, now, delay, &mut writes);
        clear_slot(&held, 2, Slot::Third, now, delay, &mut writes);
        core::mem::swap(&mut self.last_messages, &mut held);
        writes
    }
}

} // verus!
