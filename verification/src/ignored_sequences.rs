//! The suppression table: request sequence numbers whose side effects the
//! manager caused itself and does not want to see as events.
//!
//! Sequence numbers are small and come round again, so an entry lives for a
//! fixed horizon only. Entries are kept in the order of their timestamps,
//! oldest first, which makes the expired ones a prefix.

use std::collections::VecDeque;
use std::time::{Duration, Instant};
use vstd::prelude::*;

verus! {

/// How long an entry suppresses events, in nanoseconds: five seconds.
pub const HORIZON_NANOS: u128 = 5_000_000_000;

/// `std::time::Instant`, a reading of the monotonic clock. Nothing is known
/// of a value of it.
#[verifier::external_type_specification]
#[verifier::external_body]
pub struct ExInstant(Instant);

/// `Instant::now` reads the machine's monotonic clock; nothing is known of the
/// reading.
pub assume_specification[ Instant::now ]() -> (now: Instant);

/// `Instant::elapsed` is the time that has passed since the instant was taken;
/// nothing is known of its length.
pub assume_specification[ Instant::elapsed ](start: &Instant) -> (passed: Duration);

/// `Duration::as_nanos` is the length of the duration in whole nanoseconds.
/// A duration is opaque here, so the number is arbitrary.
pub assume_specification[ Duration::as_nanos ](length: &Duration) -> (nanos: u128);

/// One suppressed request.
#[derive(Debug, Clone, Copy, PartialEq, Eq)]
pub struct Inner {
    /// Sequence number of the request.
    pub sequence: u16,
    /// The one kind of event to suppress; every kind if absent.
    pub response_type: Option<u32>,
    /// When the entry was stored, in nanoseconds on the table's clock.
    pub store_time: u128,
}

impl Inner {
    /// An entry that suppresses every kind of event of the request.
    pub fn new(sequence: u16, store_time: u128) -> (entry: Inner)
        ensures
            entry == (Inner { sequence, response_type: None, store_time }),
    {
        Inner { sequence, response_type: None, store_time }
    }

    /// An entry that suppresses one kind of event of the request.
    pub fn new_with_type(sequence: u16, response_type: u32, store_time: u128) -> (entry: Inner)
        ensures
            entry == (Inner { sequence, response_type: Some(response_type), store_time }),
    {
        Inner { sequence, response_type: Some(response_type), store_time }
    }

    /// Whether the entry has reached the horizon at time `now`. An entry
    /// stamped later than `now` has no age.
    pub open spec fn stale_at(self, now: u128) -> bool {
        now - self.store_time >= HORIZON_NANOS
    }

    /// Whether the entry covers an event of kind `response_type` that answers
    /// request `sequence`.
    pub open spec fn suppresses(self, sequence: u16, response_type: u32) -> bool {
        &&& self.sequence == sequence
        &&& (self.response_type is None || self.response_type == Some(response_type))
    }

    /// Executable form of [`Inner::stale_at`].
    pub fn is_stale_at(&self, now: u128) -> (stale: bool)
        ensures
            stale == self.stale_at(now),
    {
        now >= self.store_time && now - self.store_time >= HORIZON_NANOS
    }

    /// Executable form of [`Inner::suppresses`].
    pub fn matches(&self, sequence: u16, response_type: u32) -> (hit: bool)
        ensures
            hit == self.suppresses(sequence, response_type),
    {
        if self.sequence != sequence {
            return false;
        }
        match self.response_type {
            Some(own) => own == response_type,
            None => true,
        }
    }
}

/// Entries in the order of their timestamps, oldest first.
pub open spec fn ordered_by_time(entries: Seq<Inner>) -> bool {
    forall|i: int, j: int|
        0 <= i <= j < entries.len() ==> entries[i].store_time <= entries[j].store_time
}

/// Where an entry stamped `store_time` goes: behind the last entry that is
/// not newer than it.
pub open spec fn slot_for(entries: Seq<Inner>, store_time: u128) -> int
    decreases entries.len(),
{
    if entries.len() == 0 {
        0
    } else if entries.last().store_time <= store_time {
        entries.len() as int
    } else {
        slot_for(entries.drop_last(), store_time)
    }
}

/// The table after `entry` has been stored.
pub open spec fn stored(entries: Seq<Inner>, entry: Inner) -> Seq<Inner> {
    entries.insert(slot_for(entries, entry.store_time), entry)
}

/// The entries that have not reached the horizon at time `now`, in their order.
pub open spec fn fresh_at(entries: Seq<Inner>, now: u128) -> Seq<Inner> {
    entries.filter(|entry: Inner| !entry.stale_at(now))
}

/// Whether one of the entries covers the event.
pub open spec fn any_suppresses(entries: Seq<Inner>, sequence: u16, response_type: u32) -> bool {
    exists|i: int| 0 <= i < entries.len() && #[trigger] entries[i].suppresses(sequence, response_type)
}

/// What a lookup at time `now` does: `after` holds the entries of `before`
/// that are still fresh, and `ignored` says whether one of those covers the event.
pub open spec fn lookup_at(
    before: Seq<Inner>,
    after: Seq<Inner>,
    sequence: u16,
    response_type: u32,
    ignored: bool,
    now: u128,
) -> bool {
    &&& after == fresh_at(before, now)
    &&& ignored == any_suppresses(after, sequence, response_type)
}

proof fn lemma_slot_in_range(entries: Seq<Inner>, store_time: u128)
    ensures
        0 <= slot_for(entries, store_time) <= entries.len(),
        forall|i: int|
            slot_for(entries, store_time) <= i < entries.len() ==> entries[i].store_time
                > store_time,
        slot_for(entries, store_time) > 0 ==> entries[slot_for(entries, store_time) - 1].store_time
            <= store_time,
    decreases entries.len(),
{
    if entries.len() > 0 && entries.last().store_time > store_time {
        let rest = entries.drop_last();
        lemma_slot_in_range(rest, store_time);
        let slot = slot_for(entries, store_time);
        assert forall|i: int| slot <= i < entries.len() implies entries[i].store_time
            > store_time by {
            if i < rest.len() {
                assert(rest[i] == entries[i]);
            }
        }
        if slot > 0 {
            assert(rest[slot - 1] == entries[slot - 1]);
        }
    }
}

/// Storing an entry keeps the order of the timestamps.
pub proof fn lemma_stored_ordered(entries: Seq<Inner>, entry: Inner)
    requires
        ordered_by_time(entries),
    ensures
        ordered_by_time(stored(entries, entry)),
{
    lemma_slot_in_range(entries, entry.store_time);
    let k = slot_for(entries, entry.store_time);
    let after = stored(entries, entry);
    assert forall|i: int, j: int| 0 <= i <= j < after.len() implies after[i].store_time
        <= after[j].store_time by {
        if k > 0 {
            assert(entries[k - 1].store_time <= entry.store_time);
        }
        if i < k && j > k {
            assert(after[i] == entries[i]);
            assert(after[j] == entries[j - 1]);
        }
    }
}

proof fn lemma_filter_skips_rejected_head(entries: Seq<Inner>, keep: spec_fn(Inner) -> bool)
    requires
        entries.len() > 0,
        !keep(entries[0]),
    ensures
        entries.filter(keep) == entries.drop_first().filter(keep),
    decreases entries.len(),
{
    reveal(Seq::filter);
    if entries.len() == 1 {
        assert(entries.drop_last() =~= Seq::<Inner>::empty());
        assert(entries.drop_first() =~= Seq::<Inner>::empty());
    } else {
        lemma_filter_skips_rejected_head(entries.drop_last(), keep);
        assert(entries.drop_last().drop_first() =~= entries.drop_first().drop_last());
        assert(entries.drop_first().last() == entries.last());
    }
}

proof fn lemma_filter_keeps_all(entries: Seq<Inner>, keep: spec_fn(Inner) -> bool)
    requires
        forall|i: int| 0 <= i < entries.len() ==> keep(#[trigger] entries[i]),
    ensures
        entries.filter(keep) == entries,
    decreases entries.len(),
{
    reveal(Seq::filter);
    if entries.len() > 0 {
        lemma_filter_keeps_all(entries.drop_last(), keep);
        assert(entries.drop_last().push(entries.last()) =~= entries);
    }
}

/// An entry is among the fresh ones at time `now` exactly if the table holds
/// it and it has not reached the horizon.
pub proof fn lemma_fresh_members(entries: Seq<Inner>, now: u128, entry: Inner)
    ensures
        fresh_at(entries, now).contains(entry) <==> entries.contains(entry) && !entry.stale_at(now),
    decreases entries.len(),
{
    reveal(Seq::filter);
    let keep = |e: Inner| !e.stale_at(now);
    if entries.len() > 0 {
        let rest = entries.drop_last();
        lemma_fresh_members(rest, now, entry);
        let kept = rest.filter(keep);
        if entries.contains(entry) {
            let i = choose|i: int| 0 <= i < entries.len() && entries[i] == entry;
            if i < rest.len() {
                assert(rest[i] == entry);
            }
        }
        if rest.contains(entry) {
            let i = choose|i: int| 0 <= i < rest.len() && rest[i] == entry;
            assert(entries[i] == entry);
        }
        if keep(entries.last()) {
            let all = kept.push(entries.last());
            if all.contains(entry) {
                let i = choose|i: int| 0 <= i < all.len() && all[i] == entry;
                if i < kept.len() {
                    assert(kept[i] == entry);
                }
            }
            if kept.contains(entry) {
                let i = choose|i: int| 0 <= i < kept.len() && kept[i] == entry;
                assert(all[i] == entry);
            }
            assert(all[kept.len() as int] == entries.last());
            assert(entries[entries.len() - 1] == entries.last());
        }
    }
}

/// Dropping the expired entries keeps the order of the timestamps.
pub proof fn lemma_fresh_ordered(entries: Seq<Inner>, now: u128)
    requires
        ordered_by_time(entries),
    ensures
        ordered_by_time(fresh_at(entries, now)),
    decreases entries.len(),
{
    reveal(Seq::filter);
    let keep = |e: Inner| !e.stale_at(now);
    if entries.len() > 0 {
        let rest = entries.drop_last();
        assert forall|i: int, j: int| 0 <= i <= j < rest.len() implies rest[i].store_time
            <= rest[j].store_time by {
            assert(rest[i] == entries[i] && rest[j] == entries[j]);
        }
        lemma_fresh_ordered(rest, now);
        let kept = rest.filter(keep);
        if keep(entries.last()) {
            let all = kept.push(entries.last());
            assert forall|i: int, j: int| 0 <= i <= j < all.len() implies all[i].store_time
                <= all[j].store_time by {
                if j == kept.len() && i < kept.len() {
                    assert(kept.contains(kept[i]));
                    lemma_fresh_members(rest, now, kept[i]);
                    let k = choose|k: int| 0 <= k < rest.len() && rest[k] == kept[i];
                    assert(entries[k] == kept[i]);
                    assert(entries[k].store_time <= entries[entries.len() - 1].store_time);
                }
            }
        }
    }
}

/// After an entry has been stored the table holds it and what it held before.
pub proof fn lemma_stored_members(entries: Seq<Inner>, entry: Inner, other: Inner)
    ensures
        stored(entries, entry).contains(other) <==> other == entry || entries.contains(other),
{
    lemma_slot_in_range(entries, entry.store_time);
    let slot = slot_for(entries, entry.store_time);
    let after = stored(entries, entry);
    assert(after[slot] == entry);
    if after.contains(other) {
        let i = choose|i: int| 0 <= i < after.len() && after[i] == other;
        if i < slot {
            assert(entries[i] == other);
        } else if i > slot {
            assert(entries[i - 1] == other);
        }
    }
    if entries.contains(other) {
        let i = choose|i: int| 0 <= i < entries.len() && entries[i] == other;
        if i < slot {
            assert(after[i] == other);
        } else {
            assert(after[i + 1] == other);
        }
    }
}

/// The life of an entry. Stored in any table, it makes a lookup for an event
/// that it covers answer "ignored" for as long as it has not reached the
/// horizon. The first lookup at or after the horizon removes it, and answers
/// as if it had never been stored.
pub proof fn lemma_entry_lives_until_horizon(
    entries: Seq<Inner>,
    entry: Inner,
    response_type: u32,
    now: u128,
)
    requires
        entry.suppresses(entry.sequence, response_type),
    ensures
        !entry.stale_at(now) ==> any_suppresses(
            fresh_at(stored(entries, entry), now),
            entry.sequence,
            response_type,
        ),
        entry.stale_at(now) ==> !fresh_at(stored(entries, entry), now).contains(entry),
        entry.stale_at(now) ==> (any_suppresses(
            fresh_at(stored(entries, entry), now),
            entry.sequence,
            response_type,
        ) <==> any_suppresses(fresh_at(entries, now), entry.sequence, response_type)),
{
    let with = fresh_at(stored(entries, entry), now);
    let without = fresh_at(entries, now);
    lemma_fresh_members(stored(entries, entry), now, entry);
    lemma_stored_members(entries, entry, entry);
    if !entry.stale_at(now) {
        let i = choose|i: int| 0 <= i < with.len() && with[i] == entry;
        assert(with[i].suppresses(entry.sequence, response_type));
    } else {
        if any_suppresses(with, entry.sequence, response_type) {
            let i = choose|i: int|
                0 <= i < with.len() && #[trigger] with[i].suppresses(entry.sequence, response_type);
            assert(with.contains(with[i]));
            lemma_fresh_members(stored(entries, entry), now, with[i]);
            lemma_stored_members(entries, entry, with[i]);
            lemma_fresh_members(entries, now, with[i]);
            let j = choose|j: int| 0 <= j < without.len() && without[j] == with[i];
            assert(without[j].suppresses(entry.sequence, response_type));
        }
        if any_suppresses(without, entry.sequence, response_type) {
            let i = choose|i: int|
                0 <= i < without.len() && #[trigger] without[i].suppresses(
                    entry.sequence,
                    response_type,
                );
            assert(without.contains(without[i]));
            lemma_fresh_members(entries, now, without[i]);
            lemma_stored_members(entries, entry, without[i]);
            lemma_fresh_members(stored(entries, entry), now, without[i]);
            let j = choose|j: int| 0 <= j < with.len() && with[j] == without[i];
            assert(with[j].suppresses(entry.sequence, response_type));
        }
    }
}

/// The suppression table.
pub struct IgnoredSequences {
    /// The moment the table's clock started.
    epoch: Instant,
    /// The entries, oldest first.
    entries: VecDeque<Inner>,
}

impl View for IgnoredSequences {
    type V = Seq<Inner>;

    closed spec fn view(&self) -> Seq<Inner> {
        self.entries@
    }
}

impl IgnoredSequences {
    /// The invariant of the table: its entries are in the order of their
    /// timestamps. Every operation keeps it.
    pub open spec fn well_formed(&self) -> bool {
        ordered_by_time(self@)
    }

    /// An empty table whose clock starts now.
    pub fn new() -> (table: IgnoredSequences)
        ensures
            table.well_formed(),
            table@ == Seq::<Inner>::empty(),
    {
        IgnoredSequences { epoch: Instant::now(), entries: VecDeque::new() }
    }

    /// The reading of the table's clock: nanoseconds since the table was made.
    pub fn now(&self) -> (now: u128) {
        let passed = self.epoch.elapsed();
        passed.as_nanos()
    }

    /// Stores `entry` behind the entries that are not newer than it.
    pub fn store(&mut self, entry: Inner)
        requires
            old(self).well_formed(),
        ensures
            final(self).well_formed(),
            final(self)@ == stored(old(self)@, entry),
    {
        proof {
            lemma_slot_in_range(self.entries@, entry.store_time);
            lemma_stored_ordered(self.entries@, entry);
        }
        let mut slot: usize = self.entries.len();
        assert(self.entries@.subrange(0, slot as int) =~= self.entries@);
        while slot > 0 && self.entries[slot - 1].store_time > entry.store_time
            invariant
                slot <= self.entries@.len(),
                slot_for(self.entries@, entry.store_time) == slot_for(
                    self.entries@.subrange(0, slot as int),
                    entry.store_time,
                ),
            decreases slot,
        {
            proof {
                let head = self.entries@.subrange(0, slot as int);
                assert(head.last() == self.entries@[slot - 1]);
                assert(head.drop_last() =~= self.entries@.subrange(0, slot - 1));
            }
            slot = slot - 1;
        }
        proof {
            let head = self.entries@.subrange(0, slot as int);
            if slot > 0 {
                assert(head.last() == self.entries@[slot - 1]);
            }
            assert(slot_for(head, entry.store_time) == slot);
        }
        self.entries.insert(slot, entry);
    }

    /// Records at time `now` that every event of request `sequence` is to be ignored.
    pub fn add_at(&mut self, sequence: u16, now: u128)
        requires
            old(self).well_formed(),
        ensures
            final(self).well_formed(),
            final(self)@ == stored(old(self)@, Inner { sequence, response_type: None, store_time: now }),
    {
        self.store(Inner::new(sequence, now));
    }

    /// Records at time `now` that events of kind `response_type` of request
    /// `sequence` are to be ignored.
    pub fn add_with_type_at(&mut self, sequence: u16, response_type: u32, now: u128)
        requires
            old(self).well_formed(),
        ensures
            final(self).well_formed(),
            final(self)@ == stored(
                old(self)@,
                Inner { sequence, response_type: Some(response_type), store_time: now },
            ),
    {
        self.store(Inner::new_with_type(sequence, response_type, now));
    }

    /// Drops the entries that have reached the horizon at time `now`, then
    /// says whether one that is left covers the event. A hit leaves its entry
    /// in place: one request may cause several events.
    pub fn is_ignored_at(&mut self, sequence: u16, response_type: u32, now: u128) -> (ignored: bool)
        requires
            old(self).well_formed(),
        ensures
            final(self).well_formed(),
            lookup_at(old(self)@, final(self)@, sequence, response_type, ignored, now),
    {
        let ghost keep = |entry: Inner| !entry.stale_at(now);
        loop
            invariant
                ordered_by_time(self.entries@),
                keep == (|entry: Inner| !entry.stale_at(now)),
                self.entries@.filter(keep) == old(self).entries@.filter(keep),
            ensures
                ordered_by_time(self.entries@),
                self.entries@ == old(self).entries@.filter(keep),
            decreases self.entries@.len(),
        {
            if self.entries.len() == 0 || !self.entries[0].is_stale_at(now) {
                proof {
                    assert forall|i: int| 0 <= i < self.entries@.len() implies keep(
                        #[trigger] self.entries@[i],
                    ) by {
                        assert(self.entries@[0].store_time <= self.entries@[i].store_time);
                    }
                    lemma_filter_keeps_all(self.entries@, keep);
                }
                break ;
            }
            proof {
                lemma_filter_skips_rejected_head(self.entries@, keep);
            }
            let _ = self.entries.pop_front();
        }
        let mut at: usize = 0;
        while at < self.entries.len()
            invariant
                at <= self.entries@.len(),
                ordered_by_time(self.entries@),
                self.entries@ == old(self).entries@.filter(keep),
                keep == (|entry: Inner| !entry.stale_at(now)),
                forall|i: int| 0 <= i < at ==> !(#[trigger] self.entries@[i]).suppresses(
                    sequence,
                    response_type,
                ),
            decreases self.entries@.len() - at,
        {
            if self.entries[at].matches(sequence, response_type) {
                return true;
            }
            at = at + 1;
        }
        false
    }

    /// Records that every event of request `sequence` is to be ignored,
    /// stamped with the clock's reading.
    pub fn add(&mut self, sequence: u16)
        requires
            old(self).well_formed(),
        ensures
            final(self).well_formed(),
            exists|now: u128|
                final(self)@ == #[trigger] stored(
                    old(self)@,
                    Inner { sequence, response_type: None, store_time: now },
                ),
    {
        let now = self.now();
        self.add_at(sequence, now);
    }

    /// Records that events of kind `response_type` of request `sequence` are
    /// to be ignored, stamped with the clock's reading.
    pub fn add_with_type(&mut self, sequence: u16, response_type: u32)
        requires
            old(self).well_formed(),
        ensures
            final(self).well_formed(),
            exists|now: u128|
                final(self)@ == #[trigger] stored(
                    old(self)@,
                    Inner { sequence, response_type: Some(response_type), store_time: now },
                ),
    {
        let now = self.now();
        self.add_with_type_at(sequence, response_type, now);
    }

    /// Looks the event up at the clock's reading: see [`IgnoredSequences::is_ignored_at`].
    pub fn is_ignored(&mut self, sequence: u16, response_type: u32) -> (ignored: bool)
        requires
            old(self).well_formed(),
        ensures
            final(self).well_formed(),
            exists|now: u128|
                lookup_at(old(self)@, final(self)@, sequence, response_type, ignored, now),
    {
        let now = self.now();
        self.is_ignored_at(sequence, response_type, now)
    }

    /// How many entries the table holds.
    pub fn len(&self) -> (n: usize)
        ensures
            n == self@.len(),
    {
        self.entries.len()
    }
}

} // verus!
