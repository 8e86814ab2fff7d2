//! Timeshift recording: a fixed-size ring of MPEG-TS bytes with
//! program-boundary records over it.
//!
//! Positions count bytes from the start of capture and only grow; the byte
//! written at position `p` lives at file offset `p % size` until another
//! ring lap overwrites it. Records carve the captured stream at program
//! boundaries: each record ends where the next one starts, and while the
//! recorder runs exactly the last record is still recording. A record whose
//! start has been overwritten is evicted; the one still recording is
//! clamped to the oldest byte the ring still holds.

use vstd::prelude::*;
use vstd::pervasive::VecAdditionalExecFns;

use crate::errors::Error;

verus! {

/// The byte arena of one recorder: a file of `size` bytes, written round
/// and round.
pub struct TimeshiftRing {
    pub size: usize,
    pub data: Vec<u8>,
    pub head: u64,
}

/// The oldest position whose byte the ring still holds at head `head`.
pub open spec fn ring_low(head: u64, size: usize) -> int {
    if head > size {
        head - size
    } else {
        0
    }
}

impl TimeshiftRing {
    pub open spec fn wf(self) -> bool {
        &&& self.size > 0
        &&& self.data@.len() == self.size
    }

    /// An all-zero ring of `size` bytes.
    pub fn new(size: usize) -> (r: TimeshiftRing)
        requires
            size > 0,
        ensures
            r.wf(),
            r.size == size,
            r.head == 0,
    {
        let mut data: Vec<u8> = Vec::new();
        data.resize(size, 0u8);
        TimeshiftRing { size, data, head: 0 }
    }

    /// Appends the bytes at the head, overwriting the lap before. No more
    /// than one ring of bytes at a time.
    pub fn write(&mut self, bytes: &Vec<u8>) -> (r: ())
        requires
            old(self).wf(),
            bytes@.len() <= old(self).size,
            old(self).head + bytes@.len() <= u64::MAX,
        ensures
            final(self).wf(),
            ring_write_post(*old(self), *final(self), bytes@),
    {
        let mut k: usize = 0;
        let n = bytes.len();
        while k < n
            invariant
                old(self).wf(),
                n == bytes@.len(),
                n <= old(self).size,
                old(self).head + n <= u64::MAX,
                0 <= k <= n,
                self.size == old(self).size,
                self.head == old(self).head,
                self.data@.len() == old(self).data@.len(),
                forall|i: int|
                    0 <= i < k ==> self.data@[((old(self).head + i) % (old(self).size as int))]
                        == bytes@[i],
                forall|f: int|
                    #![trigger self.data@[f]]
                    0 <= f < old(self).size && (forall|i: int|
                        0 <= i < k ==> (#[trigger] ((old(self).head + i) % (old(self).size
                            as int))) != f) ==> self.data@[f] == old(self).data@[f],
            decreases n - k,
        {
            let offset = ((self.head + k as u64) % (self.size as u64)) as usize;
            self.data.set(offset, bytes[k]);
            proof {
                assert forall|i: int|
                    0 <= i < k + 1 implies self.data@[((old(self).head + i) % (old(self).size
                    as int))] == bytes@[i] by {
                    if i < k {
                        lemma_ring_offsets_distinct(
                            old(self).head as int,
                            i,
                            k as int,
                            old(self).size as int,
                        );
                    }
                }
            }
            k += 1;
        }
        self.head = self.head + n as u64;
    }

    /// Reads `[start, end)` out of the ring, wrapping at its size. Succeeds
    /// exactly when the whole range still lies in the window the ring
    /// holds: nothing past the head, nothing already overwritten.
    pub fn read_range(&self, start: u64, end: u64) -> (r: Result<Vec<u8>, Error>)
        requires
            self.wf(),
        ensures
            r matches Ok(v) ==> spec_read(*self, start as int, end as int) == Ok::<
                Seq<u8>,
                Error,
            >(v@),
            r matches Err(e) ==> spec_read(*self, start as int, end as int) == Err::<
                Seq<u8>,
                Error,
            >(e),
    {
        if !(start <= end && end <= self.head && start >= ring_low_u64(self.head, self.size)) {
            return Err(Error::OutOfRange);
        }
        let len = (end - start) as usize;
        let mut out: Vec<u8> = Vec::new();
        let mut k: usize = 0;
        while k < len
            invariant
                self.wf(),
                0 <= k <= len,
                len == end - start,
                start <= end <= self.head,
                out@.len() == k,
                forall|i: int|
                    0 <= i < k ==> out@[i] == self.data@[(start + i) % (self.size as int)],
            decreases len - k,
        {
            let offset = ((start + k as u64) % (self.size as u64)) as usize;
            out.push(self.data[offset]);
            k += 1;
        }
        proof {
            assert(out@ =~= Seq::new(
                (end - start) as nat,
                |i: int| self.data@[(start + i) % (self.size as int)],
            ));
        }
        Ok(out)
    }
}

/// Two positions less than one ring apart sit at distinct file offsets.
proof fn lemma_ring_offsets_distinct(a: int, i: int, k: int, s: int)
    requires
        s > 0,
        0 <= i < k,
        k - i < s,
        0 <= a,
    ensures
        (a + i) % s != (a + k) % s,
{
    if (a + i) % s == (a + k) % s {
        vstd::arithmetic::div_mod::lemma_mod_equivalence(a + i, a + k, s);
        let d = i - k;
        vstd::arithmetic::div_mod::lemma_mod_add_multiples_vanish(d, s);
        vstd::arithmetic::div_mod::lemma_small_mod((s + d) as nat, s as nat);
        assert(false);
    }
}

/// `ring_low` as a machine number.
pub fn ring_low_u64(head: u64, size: usize) -> (r: u64)
    ensures
        r == ring_low(head, size),
{
    if head > size as u64 {
        head - size as u64
    } else {
        0
    }
}

/// What one ring write does: the head advances by the chunk, the chunk's
/// bytes sit at their positions' file offsets, and every other file offset
/// is untouched.
pub open spec fn ring_write_post(r0: TimeshiftRing, r1: TimeshiftRing, bytes: Seq<u8>) -> bool {
    &&& r1.size == r0.size
    &&& r1.head == r0.head + bytes.len()
    &&& r1.data@.len() == r0.data@.len()
    &&& forall|i: int|
        0 <= i < bytes.len() ==> r1.data@[(r0.head + i) % (r0.size as int)] == bytes[i]
    &&& forall|f: int|
        #![trigger r1.data@[f]]
        0 <= f < r0.size && (forall|i: int|
            0 <= i < bytes.len() ==> (#[trigger] ((r0.head + i) % (r0.size as int))) != f)
            ==> r1.data@[f] == r0.data@[f]
}

/// What reading `[start, end)` yields: the bytes at those positions' file
/// offsets, or `OutOfRange` when the range leaves the window.
pub open spec fn spec_read(r: TimeshiftRing, start: int, end: int) -> Result<Seq<u8>, Error> {
    if 0 <= start <= end && end <= r.head && start >= ring_low(r.head, r.size) {
        Ok(Seq::new((end - start) as nat, |i: int| r.data@[(start + i) % (r.size as int)]))
    } else {
        Err(Error::OutOfRange)
    }
}

/// One slice of the captured stream, carved at program boundaries. Times
/// are milliseconds since the epoch; positions count captured bytes.
#[derive(Clone, Copy, PartialEq, Eq, Structural, Debug)]
pub struct TimeshiftRecord {
    pub id: u32,
    pub program_id: u64,
    pub start_time: i64,
    pub end_time: i64,
    pub start_pos: u64,
    pub end_pos: u64,
    pub recording: bool,
}

/// Where a recorder stands in its life cycle.
#[derive(Clone, Copy, PartialEq, Eq, Structural, Debug)]
pub enum RecorderState {
    Stopped,
    Starting,
    Started,
    Stopping,
}

/// What a recorder reports upward as it moves.
#[derive(Clone, Copy, PartialEq, Eq, Structural, Debug)]
pub enum TimeshiftEvent {
    Started,
    Stopped,
    RecordStarted { record_id: u32 },
    RecordEnded { record_id: u32 },
}

/// The standing shape of a record list over a ring at head `head`:
/// ids strictly increasing and below the next to be issued; each record
/// ends where the next starts; every range lies within what the ring still
/// holds; only the last record may still be recording.
pub open spec fn records_wf(
    records: Seq<TimeshiftRecord>,
    head: u64,
    size: usize,
    next_id: u32,
) -> bool {
    &&& forall|i: int, j: int|
        0 <= i < j < records.len() ==> (#[trigger] records[i]).id < (#[trigger] records[j]).id
    &&& forall|i: int| 0 <= i < records.len() ==> (#[trigger] records[i]).id < next_id
    &&& forall|i: int|
        0 <= i < records.len() - 1 ==> (#[trigger] records[i]).end_pos == records[i + 1].start_pos
    &&& forall|i: int|
        0 <= i < records.len() ==> (#[trigger] records[i]).start_pos <= records[i].end_pos
            && records[i].end_pos <= head
    &&& forall|i: int| 0 <= i < records.len() ==> (#[trigger] records[i]).start_pos >= ring_low(head, size)
    &&& forall|i: int|
        0 <= i < records.len() && (#[trigger] records[i]).recording ==> i == records.len() - 1
}

/// A record list with the last record's end moved to the new head.
pub open spec fn bump_last(records: Seq<TimeshiftRecord>, new_end: u64) -> Seq<TimeshiftRecord> {
    records.update(
        records.len() - 1,
        (TimeshiftRecord { end_pos: new_end, ..records.last() }),
    )
}

/// Eviction after a write: records whose start the head has lapped fall
/// off the front; a last survivor whose start was lapped — the one still
/// recording — is clamped to the oldest byte the ring holds.
pub open spec fn spec_evict(records: Seq<TimeshiftRecord>, low: int) -> Seq<TimeshiftRecord>
    decreases records.len(),
{
    if records.len() == 0 {
        records
    } else if records[0].start_pos >= low {
        records
    } else if records.len() == 1 {
        seq![(TimeshiftRecord { start_pos: low as u64, ..records[0] })]
    } else {
        spec_evict(records.drop_first(), low)
    }
}

/// Record starts never decrease along the list.
proof fn lemma_start_monotonic(records: Seq<TimeshiftRecord>, i: int, j: int)
    requires
        forall|l: int|
            0 <= l < records.len() - 1 ==> (#[trigger] records[l]).end_pos == records[l
                + 1].start_pos,
        forall|l: int|
            0 <= l < records.len() ==> (#[trigger] records[l]).start_pos <= records[l].end_pos,
        0 <= i <= j < records.len(),
    ensures
        records[i].start_pos <= records[j].start_pos,
    decreases j - i,
{
    if i < j {
        lemma_start_monotonic(records, i, j - 1);
        assert(records[j - 1].end_pos == records[j].start_pos);
    }
}

/// Eviction leaves a well-formed, non-empty record list whose last record
/// is the one that was recording, still ending at the head.
proof fn lemma_evict_wf(
    records: Seq<TimeshiftRecord>,
    low: int,
    head: u64,
    size: usize,
    next_id: u32,
)
    requires
        records.len() > 0,
        forall|i: int, j: int|
            0 <= i < j < records.len() ==> (#[trigger] records[i]).id < (#[trigger] records[j]).id,
        forall|i: int| 0 <= i < records.len() ==> (#[trigger] records[i]).id < next_id,
        forall|i: int|
            0 <= i < records.len() - 1 ==> (#[trigger] records[i]).end_pos == records[i
                + 1].start_pos,
        forall|i: int|
            0 <= i < records.len() ==> (#[trigger] records[i]).start_pos <= records[i].end_pos
                && records[i].end_pos <= head,
        forall|i: int|
            0 <= i < records.len() && (#[trigger] records[i]).recording ==> i == records.len() - 1,
        records.last().recording,
        records.last().end_pos == head,
        low == ring_low(head, size),
    ensures
        spec_evict(records, low).len() > 0,
        records_wf(spec_evict(records, low), head, size, next_id),
        spec_evict(records, low).last().recording,
        spec_evict(records, low).last().end_pos == head,
        spec_evict(records, low).last().id == records.last().id,
    decreases records.len(),
{
    assert(low <= head);
    if records[0].start_pos >= low {
        assert forall|i: int|
            0 <= i < records.len() implies (#[trigger] records[i]).start_pos >= ring_low(
            head,
            size,
        ) by {
            lemma_start_monotonic(records, 0, i);
        }
    } else if records.len() == 1 {
        let c = TimeshiftRecord { start_pos: low as u64, ..records[0] };
        assert(spec_evict(records, low) =~= seq![c]);
        assert(records_wf(seq![c], head, size, next_id));
    } else {
        let rest = records.drop_first();
        assert(rest.last() == records.last());
        lemma_evict_wf(rest, low, head, size, next_id);
    }
}

/// One per-service recorder: its ring, its records, and where it stands.
pub struct TimeshiftRecorder {
    pub name: String,
    pub state: RecorderState,
    pub ring: TimeshiftRing,
    pub records: Vec<TimeshiftRecord>,
    pub next_record_id: u32,
}

impl TimeshiftRecorder {
    /// The recorder's standing invariant. While it runs, the last record —
    /// and only it — is still recording and ends at the head.
    pub open spec fn wf(self) -> bool {
        &&& self.ring.wf()
        &&& records_wf(self.records@, self.ring.head, self.ring.size, self.next_record_id)
        &&& (self.records@.len() > 0 ==> self.records@.last().end_pos == self.ring.head)
        &&& (self.state is Started ==> self.records@.len() > 0 && self.records@.last().recording)
        &&& (!(self.state is Started) ==> forall|i: int|
            0 <= i < self.records@.len() ==> !(#[trigger] self.records@[i]).recording)
    }

    /// A stopped recorder over a fresh ring.
    pub fn new(name: String, size: usize) -> (r: TimeshiftRecorder)
        requires
            size > 0,
        ensures
            r.wf(),
            r.name == name,
            r.state is Stopped,
            r.ring.size == size,
            r.ring.head == 0,
            r.records@.len() == 0,
            r.next_record_id == 0,
    {
        TimeshiftRecorder {
            name,
            state: RecorderState::Stopped,
            ring: TimeshiftRing::new(size),
            records: Vec::new(),
            next_record_id: 0,
        }
    }

    /// Rebuilds a stopped recorder from a persisted capture: the ring
    /// bytes, the head, and the record list the runtime read back from
    /// the sidecar. Succeeds exactly when the pieces form a capture this
    /// recorder could have persisted — a ring of the stated size, records
    /// in id order carving contiguous ranges inside the held window, a
    /// still-recording record only at the end reaching the head — and
    /// then marks that record ended, as a record interrupted by a restart
    /// is over. Anything else is a `Serialize` error.
    pub fn restore(
        name: String,
        size: usize,
        data: Vec<u8>,
        head: u64,
        records: Vec<TimeshiftRecord>,
    ) -> (r: Result<TimeshiftRecorder, Error>)
        ensures
            match r {
                Ok(rec) => {
                    &&& restorable(size, data@.len() as int, head, records@)
                    &&& rec.wf()
                    &&& rec.name == name
                    &&& rec.state is Stopped
                    &&& rec.ring.size == size
                    &&& rec.ring.data == data
                    &&& rec.ring.head == head
                    &&& rec.records@ == close_restored(records@)
                    &&& rec.next_record_id == (if records@.len() == 0 {
                        0
                    } else {
                        records@.last().id + 1
                    })
                },
                Err(e) => e == Error::Serialize && !restorable(
                    size,
                    data@.len() as int,
                    head,
                    records@,
                ),
            },
    {
        if size == 0 || data.len() != size {
            return Err(Error::Serialize);
        }
        let n = records.len();
        let low = ring_low_u64(head, size);
        let mut k: usize = 0;
        while k < n
            invariant
                n == records@.len(),
                0 <= k <= n,
                size > 0,
                low == ring_low(head, size),
                forall|i: int, j: int|
                    0 <= i < j < k ==> (#[trigger] records@[i]).id < (#[trigger] records@[j]).id,
                forall|i: int|
                    0 <= i < k - 1 ==> (#[trigger] records@[i]).end_pos == records@[i
                        + 1].start_pos,
                forall|i: int|
                    0 <= i < k ==> (#[trigger] records@[i]).start_pos <= records@[i].end_pos
                        && records@[i].end_pos <= head,
                forall|i: int|
                    0 <= i < k ==> (#[trigger] records@[i]).start_pos >= ring_low(head, size),
                forall|i: int|
                    0 <= i < k && (#[trigger] records@[i]).recording ==> i == records@.len() - 1,
                forall|i: int| 0 <= i < k ==> (#[trigger] records@[i]).id < u32::MAX,
            decreases n - k,
        {
            let rec = records[k];
            if !(rec.start_pos <= rec.end_pos && rec.end_pos <= head && rec.start_pos >= low) {
                return Err(Error::Serialize);
            }
            if rec.id == u32::MAX {
                return Err(Error::Serialize);
            }
            if k > 0 {
                let prev = records[k - 1];
                if !(prev.id < rec.id && prev.end_pos == rec.start_pos) {
                    return Err(Error::Serialize);
                }
            }
            if rec.recording && k + 1 != n {
                return Err(Error::Serialize);
            }
            k += 1;
        }
        if n > 0 && records[n - 1].end_pos != head {
            return Err(Error::Serialize);
        }
        let next_record_id = if n == 0 {
            0
        } else {
            records[n - 1].id + 1
        };
        let mut records = records;
        let ghost orig = records@;
        if n > 0 && records[n - 1].recording {
            let mut last = records[n - 1];
            last.recording = false;
            records.set(n - 1, last);
        }
        proof {
            assert(records@ =~= close_restored(orig));
            assert forall|i: int|
                0 <= i < records@.len() implies !(#[trigger] records@[i]).recording by {
                if i < orig.len() - 1 {
                    assert(records@[i] == orig[i]);
                }
            }
            assert forall|i: int|
                0 <= i < records@.len() implies (#[trigger] records@[i]).id < next_record_id by {
                if i < orig.len() - 1 {
                    assert(orig[i].id < orig[orig.len() - 1].id);
                }
            }
        }
        Ok(
            TimeshiftRecorder {
                name,
                state: RecorderState::Stopped,
                ring: TimeshiftRing { size, data, head },
                records,
                next_record_id,
            },
        )
    }

    /// The service became available: the recorder leaves `Stopped` and
    /// waits for the first chunk.
    pub fn start(&mut self)
        requires
            old(self).wf(),
            old(self).state is Stopped,
        ensures
            final(self).wf(),
            final(self).state is Starting,
            final(self).name == old(self).name,
            final(self).ring == old(self).ring,
            final(self).records == old(self).records,
            final(self).next_record_id == old(self).next_record_id,
    {
        self.state = RecorderState::Starting;
    }

    /// The first chunk arrived: the recorder starts, opens the first
    /// record of this run for the program on air, and captures the chunk.
    /// Reports `Started` then `RecordStarted`.
    pub fn first_chunk(&mut self, bytes: &Vec<u8>, program_id: u64, now: i64) -> (events: Vec<
        TimeshiftEvent,
    >)
        requires
            old(self).wf(),
            old(self).state is Starting,
            old(self).next_record_id < u32::MAX,
            bytes@.len() <= old(self).ring.size,
            old(self).ring.head + bytes@.len() <= u64::MAX,
        ensures
            final(self).wf(),
            final(self).state is Started,
            final(self).name == old(self).name,
            final(self).next_record_id == old(self).next_record_id + 1,
            ring_write_post(old(self).ring, final(self).ring, bytes@),
            final(self).records@ == spec_evict(
                bump_last(
                    old(self).records@.push(
                        (TimeshiftRecord {
                            id: old(self).next_record_id,
                            program_id,
                            start_time: now,
                            end_time: now,
                            start_pos: old(self).ring.head,
                            end_pos: old(self).ring.head,
                            recording: true,
                        }),
                    ),
                    final(self).ring.head,
                ),
                ring_low(final(self).ring.head, final(self).ring.size),
            ),
            events@ == seq![
                TimeshiftEvent::Started,
                (TimeshiftEvent::RecordStarted { record_id: old(self).next_record_id }),
            ],
    {
        let record = TimeshiftRecord {
            id: self.next_record_id,
            program_id,
            start_time: now,
            end_time: now,
            start_pos: self.ring.head,
            end_pos: self.ring.head,
            recording: true,
        };
        self.records.push(record);
        self.next_record_id = self.next_record_id + 1;
        self.state = RecorderState::Started;
        self.write_chunk(bytes);
        let mut events: Vec<TimeshiftEvent> = Vec::new();
        events.push(TimeshiftEvent::Started);
        events.push(TimeshiftEvent::RecordStarted { record_id: self.next_record_id - 1 });
        proof {
            assert(events@ =~= seq![
                TimeshiftEvent::Started,
                (TimeshiftEvent::RecordStarted { record_id: old(self).next_record_id }),
            ]);
        }
        events
    }

    /// Captures one chunk: the ring takes the bytes, the open record grows
    /// to the new head, and records the head has lapped are evicted.
    pub fn write_chunk(&mut self, bytes: &Vec<u8>)
        requires
            old(self).wf(),
            old(self).state is Started,
            bytes@.len() <= old(self).ring.size,
            old(self).ring.head + bytes@.len() <= u64::MAX,
        ensures
            final(self).wf(),
            final(self).state is Started,
            final(self).name == old(self).name,
            final(self).next_record_id == old(self).next_record_id,
            ring_write_post(old(self).ring, final(self).ring, bytes@),
            final(self).records@ == spec_evict(
                bump_last(old(self).records@, final(self).ring.head),
                ring_low(final(self).ring.head, final(self).ring.size),
            ),
    {
        self.ring.write(bytes);
        let new_head = self.ring.head;
        let last = self.records.len() - 1;
        let mut r = self.records[last];
        r.end_pos = new_head;
        self.records.set(last, r);
        let ghost bumped = bump_last(old(self).records@, new_head);
        let ghost ring1 = self.ring;
        proof {
            assert(self.records@ =~= bumped);
        }
        let low = ring_low_u64(self.ring.head, self.ring.size);
        let ghost glow = low as int;
        while self.records.len() > 1 && self.records[0].start_pos < low
            invariant
                self.records@.len() >= 1,
                self.state == old(self).state,
                self.name == old(self).name,
                self.next_record_id == old(self).next_record_id,
                self.ring == ring1,
                glow == low as int,
                glow == ring_low(ring1.head, ring1.size),
                spec_evict(self.records@, glow) == spec_evict(bumped, glow),
            decreases self.records@.len(),
        {
            let ghost cur = self.records@;
            self.records.remove(0);
            proof {
                assert(self.records@ =~= cur.drop_first());
                assert(spec_evict(cur, glow) == spec_evict(cur.drop_first(), glow));
            }
        }
        if self.records.len() == 1 {
            let r0 = self.records[0];
            if r0.start_pos < low {
                let ghost cur = self.records@;
                let mut c = r0;
                c.start_pos = low;
                self.records.set(0, c);
                proof {
                    assert(self.records@ =~= seq![
                        (TimeshiftRecord { start_pos: glow as u64, ..cur[0] }),
                    ]);
                    assert(spec_evict(cur, glow) =~= self.records@);
                }
            }
        }
        proof {
            if self.records@[0].start_pos >= glow {
                assert(spec_evict(self.records@, glow) == self.records@);
            }
            lemma_evict_wf(bumped, glow, self.ring.head, self.ring.size, self.next_record_id);
            assert(self.records@ == spec_evict(bumped, glow));
        }
    }

    /// A program boundary: the open record is closed at the head and a new
    /// one opens there for the next program. Reports `RecordEnded` then
    /// `RecordStarted`.
    pub fn program_changed(&mut self, program_id: u64, now: i64) -> (events: Vec<TimeshiftEvent>)
        requires
            old(self).wf(),
            old(self).state is Started,
            old(self).next_record_id < u32::MAX,
        ensures
            final(self).wf(),
            final(self).state is Started,
            final(self).name == old(self).name,
            final(self).ring == old(self).ring,
            final(self).next_record_id == old(self).next_record_id + 1,
            final(self).records@ == old(self).records@.update(
                old(self).records@.len() - 1,
                (TimeshiftRecord {
                    end_time: now,
                    recording: false,
                    ..old(self).records@.last()
                }),
            ).push(
                (TimeshiftRecord {
                    id: old(self).next_record_id,
                    program_id,
                    start_time: now,
                    end_time: now,
                    start_pos: old(self).ring.head,
                    end_pos: old(self).ring.head,
                    recording: true,
                }),
            ),
            events@ == seq![
                (TimeshiftEvent::RecordEnded { record_id: old(self).records@.last().id }),
                (TimeshiftEvent::RecordStarted { record_id: old(self).next_record_id }),
            ],
    {
        let last = self.records.len() - 1;
        let closed_id = self.records[last].id;
        let mut closed = self.records[last];
        closed.end_time = now;
        closed.recording = false;
        self.records.set(last, closed);
        let fresh = TimeshiftRecord {
            id: self.next_record_id,
            program_id,
            start_time: now,
            end_time: now,
            start_pos: self.ring.head,
            end_pos: self.ring.head,
            recording: true,
        };
        self.records.push(fresh);
        self.next_record_id = self.next_record_id + 1;
        let mut events: Vec<TimeshiftEvent> = Vec::new();
        events.push(TimeshiftEvent::RecordEnded { record_id: closed_id });
        events.push(TimeshiftEvent::RecordStarted { record_id: self.next_record_id - 1 });
        proof {
            assert(events@ =~= seq![
                (TimeshiftEvent::RecordEnded { record_id: old(self).records@.last().id }),
                (TimeshiftEvent::RecordStarted { record_id: old(self).next_record_id }),
            ]);
        }
        events
    }

    /// The service went away or capture failed: the open record is closed
    /// and the recorder drains. Reports `RecordEnded` then `Stopped`.
    pub fn stop(&mut self, now: i64) -> (events: Vec<TimeshiftEvent>)
        requires
            old(self).wf(),
            old(self).state is Started,
        ensures
            final(self).wf(),
            final(self).state is Stopping,
            final(self).name == old(self).name,
            final(self).ring == old(self).ring,
            final(self).next_record_id == old(self).next_record_id,
            final(self).records@ == old(self).records@.update(
                old(self).records@.len() - 1,
                (TimeshiftRecord {
                    end_time: now,
                    recording: false,
                    ..old(self).records@.last()
                }),
            ),
            events@ == seq![
                (TimeshiftEvent::RecordEnded { record_id: old(self).records@.last().id }),
                TimeshiftEvent::Stopped,
            ],
    {
        let last = self.records.len() - 1;
        let closed_id = self.records[last].id;
        let mut closed = self.records[last];
        closed.end_time = now;
        closed.recording = false;
        self.records.set(last, closed);
        self.state = RecorderState::Stopping;
        let mut events: Vec<TimeshiftEvent> = Vec::new();
        events.push(TimeshiftEvent::RecordEnded { record_id: closed_id });
        events.push(TimeshiftEvent::Stopped);
        proof {
            assert(events@ =~= seq![
                (TimeshiftEvent::RecordEnded { record_id: old(self).records@.last().id }),
                TimeshiftEvent::Stopped,
            ]);
        }
        events
    }

    /// The drain finished.
    pub fn drained(&mut self)
        requires
            old(self).wf(),
            old(self).state is Stopping,
        ensures
            final(self).wf(),
            final(self).state is Stopped,
            final(self).name == old(self).name,
            final(self).ring == old(self).ring,
            final(self).records == old(self).records,
            final(self).next_record_id == old(self).next_record_id,
    {
        self.state = RecorderState::Stopped;
    }

    /// The record carrying this id, if it is still held.
    pub fn find_record(&self, record_id: u32) -> (r: Option<TimeshiftRecord>)
        ensures
            r == (match spec_find_record(self.records@, record_id) {
                Some(i) => Some(self.records@[i]),
                None => None::<TimeshiftRecord>,
            }),
    {
        let mut k: usize = 0;
        while k < self.records.len()
            invariant
                0 <= k <= self.records@.len(),
                forall|i: int| 0 <= i < k ==> (#[trigger] self.records@[i]).id != record_id,
            decreases self.records@.len() - k,
        {
            if self.records[k].id == record_id {
                proof {
                    lemma_find_record_at(self.records@, record_id, k as int);
                }
                return Some(self.records[k]);
            }
            k += 1;
        }
        proof {
            lemma_find_record_none(self.records@, record_id);
        }
        None
    }

    /// Reads the captured bytes of one record from `start_offset` within
    /// it to its end. Fails with `RecordNotFound` exactly when no record
    /// carries the id, and with `OutOfRange` exactly when the offset lies
    /// past the record's end; otherwise the read succeeds, since every
    /// held record still lies within the window the ring holds.
    pub fn read_record(&self, record_id: u32, start_offset: u64) -> (r: Result<Vec<u8>, Error>)
        requires
            self.wf(),
        ensures
            match spec_find_record(self.records@, record_id) {
                None => r == Err::<Vec<u8>, Error>(Error::RecordNotFound),
                Some(i) => {
                    let rec = self.records@[i];
                    if start_offset <= rec.end_pos - rec.start_pos {
                        r matches Ok(v) && Ok::<Seq<u8>, Error>(v@) == spec_read(
                            self.ring,
                            rec.start_pos + start_offset,
                            rec.end_pos as int,
                        )
                    } else {
                        r == Err::<Vec<u8>, Error>(Error::OutOfRange)
                    }
                },
            },
    {
        let record = match self.find_record(record_id) {
            Some(rec) => rec,
            None => return Err(Error::RecordNotFound),
        };
        proof {
            lemma_find_record_props(self.records@, record_id);
        }
        if start_offset > record.end_pos - record.start_pos {
            return Err(Error::OutOfRange);
        }
        match self.ring.read_range(record.start_pos + start_offset, record.end_pos) {
            Ok(v) => Ok(v),
            Err(e) => {
                proof {
                    let i = spec_find_record(self.records@, record_id).unwrap();
                    assert(self.records@[i].start_pos >= ring_low(self.ring.head, self.ring.size));
                    assert(self.records@[i].end_pos <= self.ring.head);
                    assert(false);
                }
                Err(e)
            },
        }
    }
}

/// The persisted pieces form a capture a recorder could have written:
/// a ring of the stated size, records in strictly increasing id order
/// carving contiguous ranges inside the window the ring holds, a
/// still-recording record only at the end, and the capture reaching the
/// head.
pub open spec fn restorable(
    size: usize,
    data_len: int,
    head: u64,
    records: Seq<TimeshiftRecord>,
) -> bool {
    &&& size > 0
    &&& data_len == size
    &&& forall|i: int, j: int|
        0 <= i < j < records.len() ==> (#[trigger] records[i]).id < (#[trigger] records[j]).id
    &&& forall|i: int|
        0 <= i < records.len() - 1 ==> (#[trigger] records[i]).end_pos == records[i + 1].start_pos
    &&& forall|i: int|
        0 <= i < records.len() ==> (#[trigger] records[i]).start_pos <= records[i].end_pos
            && records[i].end_pos <= head
    &&& forall|i: int|
        0 <= i < records.len() ==> (#[trigger] records[i]).start_pos >= ring_low(head, size)
    &&& forall|i: int|
        0 <= i < records.len() && (#[trigger] records[i]).recording ==> i == records.len() - 1
    &&& forall|i: int| 0 <= i < records.len() ==> (#[trigger] records[i]).id < u32::MAX
    &&& (records.len() > 0 ==> records.last().end_pos == head)
}

/// The restored records: an interrupted recording is closed.
pub open spec fn close_restored(records: Seq<TimeshiftRecord>) -> Seq<TimeshiftRecord> {
    if records.len() > 0 && records.last().recording {
        records.update(
            records.len() - 1,
            (TimeshiftRecord { recording: false, ..records.last() }),
        )
    } else {
        records
    }
}

/// First position holding the given record id, if any.
pub open spec fn spec_find_record(records: Seq<TimeshiftRecord>, record_id: u32) -> Option<int>
    decreases records.len(),
{
    if records.len() == 0 {
        None
    } else if records[0].id == record_id {
        Some(0)
    } else {
        match spec_find_record(records.drop_first(), record_id) {
            Some(i) => Some(i + 1),
            None => None,
        }
    }
}

/// A matching position with none before it is the one found.
proof fn lemma_find_record_at(records: Seq<TimeshiftRecord>, record_id: u32, k: int)
    requires
        0 <= k < records.len(),
        records[k].id == record_id,
        forall|i: int| 0 <= i < k ==> (#[trigger] records[i]).id != record_id,
    ensures
        spec_find_record(records, record_id) == Some(k),
    decreases records.len(),
{
    if k > 0 {
        lemma_find_record_at(records.drop_first(), record_id, k - 1);
    }
}

/// With no matching position, nothing is found.
proof fn lemma_find_record_none(records: Seq<TimeshiftRecord>, record_id: u32)
    requires
        forall|i: int| 0 <= i < records.len() ==> (#[trigger] records[i]).id != record_id,
    ensures
        spec_find_record(records, record_id) is None,
    decreases records.len(),
{
    if records.len() > 0 {
        lemma_find_record_none(records.drop_first(), record_id);
    }
}

/// Where the search lands, the id matches.
proof fn lemma_find_record_props(records: Seq<TimeshiftRecord>, record_id: u32)
    ensures
        spec_find_record(records, record_id) matches Some(i) ==> 0 <= i < records.len()
            && records[i].id == record_id,
    decreases records.len(),
{
    if records.len() > 0 && records[0].id != record_id {
        lemma_find_record_props(records.drop_first(), record_id);
    }
}

/// The JSON one record persists to, with camel-case keys.
pub open spec fn record_json_of(r: TimeshiftRecord) -> Seq<char> {
    "{\"id\":"@ + crate::decimal::dec_of(r.id as nat) + ",\"program\":"@
        + crate::decimal::dec_of(r.program_id as nat) + ",\"startTime\":"@
        + crate::decimal::dec_signed_of(r.start_time as int) + ",\"endTime\":"@
        + crate::decimal::dec_signed_of(r.end_time as int) + ",\"startPos\":"@
        + crate::decimal::dec_of(r.start_pos as nat) + ",\"endPos\":"@
        + crate::decimal::dec_of(r.end_pos as nat) + ",\"recording\":"@ + (if r.recording {
        "true"@
    } else {
        "false"@
    }) + "}"@
}

/// The records array body: the records' JSON objects joined by commas.
pub open spec fn records_json_of(records: Seq<TimeshiftRecord>) -> Seq<char>
    decreases records.len(),
{
    if records.len() == 0 {
        Seq::empty()
    } else if records.len() == 1 {
        record_json_of(records[0])
    } else {
        records_json_of(records.drop_last()) + ","@ + record_json_of(records.last())
    }
}

/// The whole sidecar: ring size, current point, and the record list.
pub open spec fn sidecar_json_of(rec: TimeshiftRecorder, timestamp: i64) -> Seq<char> {
    "{\"ring_size\":"@ + crate::decimal::dec_of(rec.ring.size as nat)
        + ",\"current_point\":{\"pos\":"@ + crate::decimal::dec_of(rec.ring.head as nat)
        + ",\"timestamp\":"@ + crate::decimal::dec_signed_of(timestamp as int) + "},\"records\":["@
        + records_json_of(rec.records@) + "]}"@
}

/// Renders one record as its JSON object.
fn record_to_json(r: &TimeshiftRecord) -> (out: String)
    ensures
        out@ == record_json_of(*r),
{
    let mut out = String::from_str("{\"id\":");
    out.append(crate::decimal::u32_to_string(r.id).as_str());
    out.append(",\"program\":");
    out.append(crate::decimal::u64_to_string(r.program_id).as_str());
    out.append(",\"startTime\":");
    out.append(crate::decimal::i64_to_string(r.start_time).as_str());
    out.append(",\"endTime\":");
    out.append(crate::decimal::i64_to_string(r.end_time).as_str());
    out.append(",\"startPos\":");
    out.append(crate::decimal::u64_to_string(r.start_pos).as_str());
    out.append(",\"endPos\":");
    out.append(crate::decimal::u64_to_string(r.end_pos).as_str());
    out.append(",\"recording\":");
    if r.recording {
        out.append("true");
    } else {
        out.append("false");
    }
    out.append("}");
    out
}

impl TimeshiftRecorder {
    /// Renders the sidecar the recorder persists: the ring size, the
    /// current point stamped with `timestamp`, and every record. The
    /// runtime writes it to a fresh file and renames it over the old one,
    /// so readers never see a half-written sidecar.
    pub fn to_sidecar_json(&self, timestamp: i64) -> (out: String)
        ensures
            out@ == sidecar_json_of(*self, timestamp),
    {
        let mut out = String::from_str("{\"ring_size\":");
        out.append(crate::decimal::usize_to_string(self.ring.size).as_str());
        out.append(",\"current_point\":{\"pos\":");
        out.append(crate::decimal::u64_to_string(self.ring.head).as_str());
        out.append(",\"timestamp\":");
        out.append(crate::decimal::i64_to_string(timestamp).as_str());
        out.append("},\"records\":[");
        let mut k: usize = 0;
        let ghost head = out@;
        while k < self.records.len()
            invariant
                0 <= k <= self.records@.len(),
                out@ == head + records_json_of(self.records@.subrange(0, k as int)),
            decreases self.records@.len() - k,
        {
            proof {
                assert(self.records@.subrange(0, k + 1 as int).drop_last() =~= self.records@.subrange(
                    0,
                    k as int,
                ));
                assert(self.records@.subrange(0, k + 1 as int).last() == self.records@[k as int]);
                if k + 1 == 1 {
                    assert(self.records@.subrange(0, 1).len() == 1);
                }
            }
            if k > 0 {
                out.append(",");
            }
            out.append(record_to_json(&self.records[k]).as_str());
            proof {
                assert(out@ =~= head + records_json_of(self.records@.subrange(0, k + 1 as int)));
            }
            k += 1;
        }
        proof {
            assert(self.records@.subrange(0, self.records@.len() as int) =~= self.records@);
        }
        out.append("]}");
        proof {
            assert(out@ =~= sidecar_json_of(*self, timestamp));
        }
        out
    }
}

/// Every record but the last ends exactly where its successor starts, and
/// at most one record is still recording — the last one.
pub proof fn lemma_records_contiguous(rec: TimeshiftRecorder)
    requires
        rec.wf(),
    ensures
        forall|i: int|
            0 <= i < rec.records@.len() - 1 ==> (#[trigger] rec.records@[i]).end_pos
                == rec.records@[i + 1].start_pos,
        forall|i: int|
            0 <= i < rec.records@.len() && (#[trigger] rec.records@[i]).recording ==> i
                == rec.records@.len() - 1,
{
}

/// Writing a chunk and reading back its range yields the same bytes.
pub proof fn lemma_ring_round_trip(r0: TimeshiftRing, r1: TimeshiftRing, bytes: Seq<u8>)
    requires
        r0.wf(),
        bytes.len() <= r0.size,
        r0.head + bytes.len() <= u64::MAX,
        ring_write_post(r0, r1, bytes),
    ensures
        spec_read(r1, r0.head as int, r0.head + bytes.len()) == Ok::<Seq<u8>, Error>(bytes),
{
    let start = r0.head as int;
    let end = r0.head + bytes.len();
    assert(start >= ring_low(r1.head, r1.size));
    let v = Seq::new((end - start) as nat, |i: int| r1.data@[(start + i) % (r1.size as int)]);
    assert(v =~= bytes);
}

} // verus!
