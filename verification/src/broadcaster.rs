//! One-writer, many-reader fan-out of an MPEG-TS byte stream.
//!
//! The upstream is read in arbitrary chunks; the aligner carries bytes over
//! so that everything handed out is a whole number of 188-byte transport
//! packets. Every subscriber owns a bounded queue: a chunk is pushed to
//! each queue with room and dropped, for that subscriber alone, when its
//! queue is full — one stuck reader never holds up another. A subscriber
//! that keeps failing longer than the time limit is evicted.

use vstd::prelude::*;
use vstd::pervasive::VecAdditionalExecFns;

use crate::models::TunerSessionId;
use crate::models::TunerSubscriptionId;

verus! {

/// Bytes of one MPEG-TS transport packet.
pub const TS_PACKET_SIZE: usize = 188;

/// Appends every byte of `src` to `dst`.
pub fn append_bytes(dst: &mut Vec<u8>, src: &Vec<u8>)
    ensures
        final(dst)@ == old(dst)@ + src@,
{
    let mut k: usize = 0;
    while k < src.len()
        invariant
            0 <= k <= src@.len(),
            dst@ == old(dst)@ + src@.subrange(0, k as int),
        decreases src@.len() - k,
    {
        dst.push(src[k]);
        proof {
            assert(dst@ =~= old(dst)@ + src@.subrange(0, k + 1 as int));
        }
        k += 1;
    }
    proof {
        assert(dst@ =~= old(dst)@ + src@);
    }
}

/// A copy of the bytes.
pub fn copy_bytes(src: &Vec<u8>) -> (r: Vec<u8>)
    ensures
        r@ == src@,
{
    let mut out: Vec<u8> = Vec::new();
    append_bytes(&mut out, src);
    out
}

/// Carries bytes between reads so that everything handed out starts and
/// ends on a packet boundary.
pub struct PacketAligner {
    pub leftover: Vec<u8>,
}

impl PacketAligner {
    /// Fewer than one packet of carried bytes.
    pub open spec fn wf(self) -> bool {
        self.leftover@.len() < TS_PACKET_SIZE
    }

    pub fn new() -> (r: PacketAligner)
        ensures
            r.wf(),
            r.leftover@.len() == 0,
    {
        PacketAligner { leftover: Vec::new() }
    }

    /// Consumes one upstream chunk and hands back the longest
    /// packet-aligned prefix of the carried bytes followed by the chunk;
    /// the remainder is carried into the next call. Every byte comes out
    /// exactly once and in order, and everything handed out is a whole
    /// number of packets.
    pub fn feed(&mut self, chunk: &Vec<u8>) -> (r: Vec<u8>)
        requires
            old(self).wf(),
            old(self).leftover@.len() + chunk@.len() <= usize::MAX,
        ensures
            final(self).wf(),
            r@.len() % (TS_PACKET_SIZE as nat) == 0,
            r@ + final(self).leftover@ == old(self).leftover@ + chunk@,
            r@.len() + final(self).leftover@.len() == old(self).leftover@.len() + chunk@.len(),
    {
        let mut combined = copy_bytes(&self.leftover);
        append_bytes(&mut combined, chunk);
        let rem = combined.len() % TS_PACKET_SIZE;
        let cut = combined.len() - rem;
        let tail = combined.split_off(cut);
        self.leftover = tail;
        proof {
            assert(combined@ + self.leftover@ =~= old(self).leftover@ + chunk@);
        }
        combined
    }
}

/// One reader of the fan-out: a bounded queue of pending chunks, a counter
/// of chunks dropped for it, and when its sends started failing.
pub struct BroadcastSubscriber {
    pub id: TunerSubscriptionId,
    pub queue: Vec<Vec<u8>>,
    pub capacity: usize,
    pub lag_count: u64,
    pub failed_since: Option<u64>,
}

/// The byte sequences a queue holds, in delivery order.
pub open spec fn queue_view(q: Seq<Vec<u8>>) -> Seq<Seq<u8>> {
    q.map_values(|c: Vec<u8>| c@)
}

/// How one subscriber changes when a chunk is offered to it at `now`.
pub open spec fn offered(n: BroadcastSubscriber, o: BroadcastSubscriber, chunk: Seq<u8>, now: u64) -> bool {
    &&& n.id == o.id
    &&& n.capacity == o.capacity
    &&& if o.queue@.len() < o.capacity {
        // Room: the chunk is appended and the subscriber is healthy.
        &&& queue_view(n.queue@) == queue_view(o.queue@).push(chunk)
        &&& n.lag_count == o.lag_count
        &&& n.failed_since is None
    } else {
        // Full: the chunk is dropped for this subscriber alone.
        &&& queue_view(n.queue@) == queue_view(o.queue@)
        &&& n.lag_count == (if o.lag_count < u64::MAX {
            (o.lag_count + 1) as u64
        } else {
            o.lag_count
        })
        &&& n.failed_since == (match o.failed_since {
            Some(t) => Some(t),
            None => Some(now),
        })
    }
}

/// Every chunk a queue holds is a whole number of packets.
pub open spec fn queue_aligned(q: Seq<Vec<u8>>) -> bool {
    forall|i: int| 0 <= i < q.len() ==> (#[trigger] q[i])@.len() % (TS_PACKET_SIZE as nat) == 0
}

/// Whether a subscriber survives the eviction sweep at `now`.
pub open spec fn keeps(s: BroadcastSubscriber, now: u64, time_limit: u64) -> bool {
    !(s.failed_since matches Some(t) && now >= t && now - t >= time_limit)
}

/// The fan-out: the aligner and the subscribers, with the failure window
/// after which a stuck subscriber is evicted.
pub struct Broadcaster {
    pub session_id: TunerSessionId,
    pub aligner: PacketAligner,
    pub subscribers: Vec<BroadcastSubscriber>,
    pub time_limit: u64,
    pub default_capacity: usize,
}

impl Broadcaster {
    /// The aligner carries less than a packet, and every pending chunk of
    /// every subscriber is packet-aligned: nothing else is ever delivered.
    pub open spec fn wf(self) -> bool {
        &&& self.aligner.wf()
        &&& forall|j: int|
            0 <= j < self.subscribers@.len() ==> queue_aligned(
                (#[trigger] self.subscribers@[j]).queue@,
            )
    }

    pub fn new(session_id: TunerSessionId, time_limit: u64, default_capacity: usize) -> (r:
        Broadcaster)
        ensures
            r.wf(),
            r.session_id == session_id,
            r.time_limit == time_limit,
            r.default_capacity == default_capacity,
            r.subscribers@.len() == 0,
            r.aligner.leftover@.len() == 0,
    {
        Broadcaster {
            session_id,
            aligner: PacketAligner::new(),
            subscribers: Vec::new(),
            time_limit,
            default_capacity,
        }
    }

    /// Registers a reader under its subscription id, with an empty queue of
    /// the default bound.
    pub fn subscribe(&mut self, id: TunerSubscriptionId)
        requires
            old(self).wf(),
        ensures
            final(self).wf(),
            final(self).subscribers@.len() == old(self).subscribers@.len() + 1,
            forall|j: int|
                0 <= j < old(self).subscribers@.len() ==> final(self).subscribers@[j] == old(
                    self,
                ).subscribers@[j],
            ({
                let s = final(self).subscribers@.last();
                &&& s.id == id
                &&& s.queue@.len() == 0
                &&& s.capacity == old(self).default_capacity
                &&& s.lag_count == 0
                &&& s.failed_since is None
            }),
            final(self).aligner == old(self).aligner,
            final(self).time_limit == old(self).time_limit,
            final(self).default_capacity == old(self).default_capacity,
            final(self).session_id == old(self).session_id,
    {
        let capacity = self.default_capacity;
        self.subscribers.push(
            BroadcastSubscriber {
                id,
                queue: Vec::new(),
                capacity,
                lag_count: 0,
                failed_since: None,
            },
        );
        proof {
            assert forall|j: int|
                0 <= j < self.subscribers@.len() implies queue_aligned(
                (#[trigger] self.subscribers@[j]).queue@,
            ) by {
                if j < old(self).subscribers@.len() {
                    assert(self.subscribers@[j] == old(self).subscribers@[j]);
                }
            }
        }
    }

    /// Removes every subscriber carrying this id. Idempotent: removing an
    /// unknown id changes nothing.
    pub fn unsubscribe(&mut self, id: TunerSubscriptionId)
        requires
            old(self).wf(),
        ensures
            final(self).wf(),
            final(self).subscribers@ == old(self).subscribers@.filter(
                |s: BroadcastSubscriber| s.id != id,
            ),
            final(self).aligner == old(self).aligner,
            final(self).time_limit == old(self).time_limit,
            final(self).default_capacity == old(self).default_capacity,
            final(self).session_id == old(self).session_id,
    {
        let mut kept: Vec<BroadcastSubscriber> = Vec::new();
        proof {
            reveal_with_fuel(Seq::<BroadcastSubscriber>::filter, 2);
            assert(old(self).subscribers@.subrange(0, 0).filter(
                |s: BroadcastSubscriber| s.id != id,
            ).len() == 0);
        }
        let mut k: usize = 0;
        let n = self.subscribers.len();
        while k < n
            invariant
                old(self).wf(),
                0 <= k <= n,
                n == self.subscribers@.len(),
                n == old(self).subscribers@.len(),
                self.aligner == old(self).aligner,
                self.time_limit == old(self).time_limit,
                self.default_capacity == old(self).default_capacity,
                self.session_id == old(self).session_id,
                forall|j: int| k <= j < n ==> self.subscribers@[j] == old(self).subscribers@[j],
                forall|j: int|
                    0 <= j < kept@.len() ==> queue_aligned((#[trigger] kept@[j]).queue@),
                kept@ == old(self).subscribers@.subrange(0, k as int).filter(
                    |s: BroadcastSubscriber| s.id != id,
                ),
            decreases n - k,
        {
            let ghost pre = old(self).subscribers@.subrange(0, k as int).filter(
                |s: BroadcastSubscriber| s.id != id,
            );
            proof {
                reveal_with_fuel(Seq::<BroadcastSubscriber>::filter, 2);
                assert(old(self).subscribers@.subrange(0, k + 1 as int).drop_last()
                    =~= old(self).subscribers@.subrange(0, k as int));
            }
            let sub = take_subscriber(&mut self.subscribers, k);
            let keep = !(sub.id.session_id.tuner_index == id.session_id.tuner_index
                && sub.id.session_id.session_number == id.session_id.session_number
                && sub.id.serial_number == id.serial_number);
            proof {
                assert(keep == (sub.id != id));
            }
            if keep {
                kept.push(sub);
                proof {
                    assert(kept@ =~= pre.push(old(self).subscribers@[k as int]));
                }
            }
            k += 1;
        }
        proof {
            assert(old(self).subscribers@.subrange(0, n as int) =~= old(self).subscribers@);
        }
        self.subscribers = kept;
    }

    /// Offers one aligned chunk to every subscriber at time `now`: each
    /// queue with room takes it, each full queue drops it and counts the
    /// lag — whether any other subscriber is stuck plays no part.
    pub fn broadcast_chunk(&mut self, chunk: &Vec<u8>, now: u64)
        requires
            old(self).wf(),
            chunk@.len() % (TS_PACKET_SIZE as nat) == 0,
        ensures
            final(self).wf(),
            final(self).subscribers@.len() == old(self).subscribers@.len(),
            forall|j: int|
                0 <= j < old(self).subscribers@.len() ==> offered(
                    #[trigger] final(self).subscribers@[j],
                    old(self).subscribers@[j],
                    chunk@,
                    now,
                ),
            final(self).aligner == old(self).aligner,
            final(self).time_limit == old(self).time_limit,
            final(self).default_capacity == old(self).default_capacity,
            final(self).session_id == old(self).session_id,
    {
        let n = self.subscribers.len();
        let mut k: usize = 0;
        while k < n
            invariant
                old(self).wf(),
                0 <= k <= n,
                n == self.subscribers@.len(),
                n == old(self).subscribers@.len(),
                self.aligner == old(self).aligner,
                self.time_limit == old(self).time_limit,
                self.default_capacity == old(self).default_capacity,
                self.session_id == old(self).session_id,
                forall|j: int| k <= j < n ==> self.subscribers@[j] == old(self).subscribers@[j],
                chunk@.len() % (TS_PACKET_SIZE as nat) == 0,
                forall|j: int|
                    0 <= j < k ==> queue_aligned((#[trigger] self.subscribers@[j]).queue@),
                forall|j: int|
                    0 <= j < k ==> offered(
                        #[trigger] self.subscribers@[j],
                        old(self).subscribers@[j],
                        chunk@,
                        now,
                    ),
            decreases n - k,
        {
            let mut sub = take_subscriber(&mut self.subscribers, k);
            let ghost osub = old(self).subscribers@[k as int];
            if sub.queue.len() < sub.capacity {
                sub.queue.push(copy_bytes(chunk));
                sub.failed_since = None;
                proof {
                    assert(queue_view(sub.queue@) =~= queue_view(osub.queue@).push(chunk@));
                    assert forall|i: int|
                        0 <= i < sub.queue@.len() implies (#[trigger] sub.queue@[i])@.len() % (
                    TS_PACKET_SIZE as nat) == 0 by {
                        if i < osub.queue@.len() {
                            assert(sub.queue@[i] == osub.queue@[i]);
                        }
                    }
                }
            } else {
                if sub.lag_count < u64::MAX {
                    sub.lag_count = sub.lag_count + 1;
                }
                if sub.failed_since.is_none() {
                    sub.failed_since = Some(now);
                }
                proof {
                    assert(queue_view(sub.queue@) =~= queue_view(osub.queue@));
                }
            }
            put_subscriber(&mut self.subscribers, k, &mut sub);
            k += 1;
        }
    }

    /// Evicts every subscriber whose sends have kept failing for the time
    /// limit or longer, and no other.
    pub fn evict_stalled(&mut self, now: u64)
        requires
            old(self).wf(),
        ensures
            final(self).wf(),
            ({
                let tl = old(self).time_limit;
                final(self).subscribers@ == old(self).subscribers@.filter(
                    |s: BroadcastSubscriber| keeps(s, now, tl),
                )
            }),
            final(self).aligner == old(self).aligner,
            final(self).time_limit == old(self).time_limit,
            final(self).default_capacity == old(self).default_capacity,
            final(self).session_id == old(self).session_id,
    {
        let ghost tl = self.time_limit;
        let mut kept: Vec<BroadcastSubscriber> = Vec::new();
        proof {
            reveal_with_fuel(Seq::<BroadcastSubscriber>::filter, 2);
            assert(old(self).subscribers@.subrange(0, 0).filter(
                |s: BroadcastSubscriber| keeps(s, now, tl),
            ).len() == 0);
        }
        let mut k: usize = 0;
        let n = self.subscribers.len();
        while k < n
            invariant
                old(self).wf(),
                0 <= k <= n,
                n == self.subscribers@.len(),
                n == old(self).subscribers@.len(),
                self.aligner == old(self).aligner,
                self.time_limit == old(self).time_limit,
                self.default_capacity == old(self).default_capacity,
                self.session_id == old(self).session_id,
                forall|j: int| k <= j < n ==> self.subscribers@[j] == old(self).subscribers@[j],
                forall|j: int|
                    0 <= j < kept@.len() ==> queue_aligned((#[trigger] kept@[j]).queue@),
                tl == old(self).time_limit,
                kept@ == old(self).subscribers@.subrange(0, k as int).filter(
                    |s: BroadcastSubscriber| keeps(s, now, tl),
                ),
            decreases n - k,
        {
            let ghost pre = old(self).subscribers@.subrange(0, k as int).filter(
                |s: BroadcastSubscriber| keeps(s, now, tl),
            );
            proof {
                reveal_with_fuel(Seq::<BroadcastSubscriber>::filter, 2);
                assert(old(self).subscribers@.subrange(0, k + 1 as int).drop_last()
                    =~= old(self).subscribers@.subrange(0, k as int));
            }
            let sub = take_subscriber(&mut self.subscribers, k);
            let keep = match sub.failed_since {
                Some(t) => !(now >= t && now - t >= self.time_limit),
                None => true,
            };
            proof {
                assert(keep == keeps(sub, now, tl));
            }
            if keep {
                kept.push(sub);
                proof {
                    assert(kept@ =~= pre.push(old(self).subscribers@[k as int]));
                }
            }
            k += 1;
        }
        proof {
            assert(old(self).subscribers@.subrange(0, n as int) =~= old(self).subscribers@);
        }
        self.subscribers = kept;
    }

    /// Hands the oldest pending chunk of the subscriber the id names, if
    /// there is one: nothing comes back only when every subscriber under
    /// the id has an empty queue. Chunks come out in the order they were
    /// offered.
    pub fn recv(&mut self, id: TunerSubscriptionId) -> (r: Option<Vec<u8>>)
        requires
            old(self).wf(),
        ensures
            final(self).wf(),
            r matches Some(chunk) ==> chunk@.len() % (TS_PACKET_SIZE as nat) == 0,
            r is None ==> forall|j: int|
                0 <= j < old(self).subscribers@.len() && (#[trigger] old(self).subscribers@[j]).id
                    == id ==> old(self).subscribers@[j].queue@.len() == 0,
            final(self).aligner == old(self).aligner,
            final(self).time_limit == old(self).time_limit,
            final(self).default_capacity == old(self).default_capacity,
            final(self).session_id == old(self).session_id,
            final(self).subscribers@.len() == old(self).subscribers@.len(),
            match r {
                Some(chunk) => exists|j: int|
                    {
                        &&& 0 <= j < old(self).subscribers@.len()
                        &&& (#[trigger] old(self).subscribers@[j]).id == id
                        &&& old(self).subscribers@[j].queue@.len() > 0
                        &&& chunk@ == old(self).subscribers@[j].queue@[0]@
                        &&& queue_view(final(self).subscribers@[j].queue@) == queue_view(
                            old(self).subscribers@[j].queue@,
                        ).drop_first()
                        &&& forall|l: int|
                            0 <= l < old(self).subscribers@.len() && l != j
                                ==> final(self).subscribers@[l] == old(self).subscribers@[l]
                    },
                None => final(self).subscribers@ == old(self).subscribers@,
            },
    {
        let n = self.subscribers.len();
        let mut k: usize = 0;
        while k < n
            invariant
                old(self).wf(),
                0 <= k <= n,
                n == self.subscribers@.len(),
                *self == *old(self),
                forall|j: int|
                    0 <= j < k && (#[trigger] old(self).subscribers@[j]).id == id ==> old(
                        self,
                    ).subscribers@[j].queue@.len() == 0,
            decreases n - k,
        {
            let found = {
                let sub = &self.subscribers[k];
                sub.id.session_id.tuner_index == id.session_id.tuner_index
                    && sub.id.session_id.session_number == id.session_id.session_number
                    && sub.id.serial_number == id.serial_number && sub.queue.len() > 0
            };
            if found {
                let mut sub = take_subscriber(&mut self.subscribers, k);
                let chunk = sub.queue.remove(0);
                proof {
                    assert(queue_view(sub.queue@) =~= queue_view(
                        old(self).subscribers@[k as int].queue@,
                    ).drop_first());
                    assert forall|i: int|
                        0 <= i < sub.queue@.len() implies (#[trigger] sub.queue@[i])@.len() % (
                    TS_PACKET_SIZE as nat) == 0 by {
                        assert(sub.queue@[i] == old(self).subscribers@[k as int].queue@[i + 1]);
                    }
                }
                put_subscriber(&mut self.subscribers, k, &mut sub);
                proof {
                    assert forall|j: int|
                        0 <= j < self.subscribers@.len() implies queue_aligned(
                        (#[trigger] self.subscribers@[j]).queue@,
                    ) by {
                        if j != k {
                            assert(self.subscribers@[j] == old(self).subscribers@[j]);
                        }
                    }
                }
                return Some(chunk);
            }
            k += 1;
        }
        None
    }
}

/// Isolation of the fan-out: when a chunk is offered, every subscriber
/// with room in its queue receives it — whatever any other subscriber's
/// queue looks like — and a full subscriber loses only its own chunk.
pub proof fn lemma_subscriber_isolation(
    b0: Broadcaster,
    b1: Broadcaster,
    chunk: Seq<u8>,
    now: u64,
    j: int,
)
    requires
        b1.subscribers@.len() == b0.subscribers@.len(),
        forall|l: int|
            0 <= l < b0.subscribers@.len() ==> offered(
                #[trigger] b1.subscribers@[l],
                b0.subscribers@[l],
                chunk,
                now,
            ),
        0 <= j < b0.subscribers@.len(),
    ensures
        b0.subscribers@[j].queue@.len() < b0.subscribers@[j].capacity ==> queue_view(
            b1.subscribers@[j].queue@,
        ) == queue_view(b0.subscribers@[j].queue@).push(chunk),
        b0.subscribers@[j].queue@.len() >= b0.subscribers@[j].capacity ==> queue_view(
            b1.subscribers@[j].queue@,
        ) == queue_view(b0.subscribers@[j].queue@),
{
}

/// Takes the subscriber at `k` out of the vector, leaving a placeholder.
fn take_subscriber(subs: &mut Vec<BroadcastSubscriber>, k: usize) -> (r: BroadcastSubscriber)
    requires
        k < old(subs)@.len(),
    ensures
        r == old(subs)@[k as int],
        final(subs)@.len() == old(subs)@.len(),
        forall|j: int| 0 <= j < old(subs)@.len() && j != k ==> final(subs)@[j] == old(subs)@[j],
{
    let mut tmp = BroadcastSubscriber {
        id: TunerSubscriptionId {
            session_id: TunerSessionId { tuner_index: 0, session_number: 0 },
            serial_number: 0,
        },
        queue: Vec::new(),
        capacity: 0,
        lag_count: 0,
        failed_since: None,
    };
    subs.set_and_swap(k, &mut tmp);
    tmp
}

/// Puts a subscriber back at `k`.
fn put_subscriber(subs: &mut Vec<BroadcastSubscriber>, k: usize, sub: &mut BroadcastSubscriber)
    requires
        k < old(subs)@.len(),
    ensures
        final(subs)@ == old(subs)@.update(k as int, *old(sub)),
{
    subs.set_and_swap(k, sub);
}

} // verus!
