//! The pool of timeshift recorders, as the manager tracks it: one holder
//! per recorder with the cached state needed to replay events to a late
//! subscriber, and the timing of the periodic health check.
//!
//! The recorders themselves run elsewhere; what the manager decides from —
//! which holder an event updates, what a fresh emitter must be told first,
//! when the next health check is due — is computed here.

use vstd::prelude::*;
use vstd::pervasive::VecAdditionalExecFns;

use crate::timeshift::TimeshiftEvent;

verus! {

/// What the manager remembers of one recorder: whether it has started and
/// which record it is currently writing.
pub struct RecorderHolder {
    pub name: String,
    pub started: bool,
    pub current_record_id: Option<u32>,
}

/// The events one holder's cached state replays to a fresh emitter.
pub open spec fn holder_replay(h: RecorderHolder) -> Seq<(String, TimeshiftEvent)> {
    (if h.started {
        seq![(h.name, TimeshiftEvent::Started)]
    } else {
        Seq::empty()
    }) + (match h.current_record_id {
        Some(id) => seq![(h.name, (TimeshiftEvent::RecordStarted { record_id: id }))],
        None => Seq::empty(),
    })
}

/// The whole replay: every holder's events, in pool order.
pub open spec fn replay_of(holders: Seq<RecorderHolder>) -> Seq<(String, TimeshiftEvent)>
    decreases holders.len(),
{
    if holders.len() == 0 {
        Seq::empty()
    } else {
        replay_of(holders.drop_last()) + holder_replay(holders.last())
    }
}

/// The manager's own state: one holder per configured recorder, in
/// configuration order.
pub struct TimeshiftManager {
    pub holders: Vec<RecorderHolder>,
}

impl TimeshiftManager {
    /// Recorder names are pairwise distinct.
    pub open spec fn wf(self) -> bool {
        forall|i: int, j: int|
            0 <= i < j < self.holders@.len() ==> (#[trigger] self.holders@[i]).name@
                != (#[trigger] self.holders@[j]).name@
    }

    /// One fresh holder per recorder name, in order; a name appearing
    /// twice keeps its first place only.
    pub fn new(names: &Vec<String>) -> (r: TimeshiftManager)
        ensures
            r.wf(),
            r.holders@.len() <= names@.len(),
            forall|i: int|
                0 <= i < r.holders@.len() ==> !(#[trigger] r.holders@[i]).started
                    && r.holders@[i].current_record_id is None,
            forall|i: int|
                0 <= i < names@.len() ==> spec_find_holder(
                    r.holders@,
                    (#[trigger] names@[i])@,
                ) is Some,
    {
        let mut holders: Vec<RecorderHolder> = Vec::new();
        let mut k: usize = 0;
        while k < names.len()
            invariant
                0 <= k <= names@.len(),
                holders@.len() <= k,
                forall|i: int, j: int|
                    0 <= i < j < holders@.len() ==> (#[trigger] holders@[i]).name@
                        != (#[trigger] holders@[j]).name@,
                forall|i: int|
                    0 <= i < holders@.len() ==> !(#[trigger] holders@[i]).started
                        && holders@[i].current_record_id is None,
                forall|i: int|
                    0 <= i < k ==> spec_find_holder(holders@, (#[trigger] names@[i])@) is Some,
            decreases names@.len() - k,
        {
            let name = &names[k];
            let ghost pre = holders@;
            let found = find_holder(&holders, name.as_str());
            match found {
                Option::Some(fj) => {
                    proof {
                        assert(spec_find_holder(holders@, names@[k as int]@) is Some);
                    }
                },
                Option::None => {
                    holders.push(
                        RecorderHolder {
                            name: name.clone(),
                            started: false,
                            current_record_id: None,
                        },
                    );
                    proof {
                        assert(holders@[pre.len() as int].name@ == names@[k as int]@);
                        lemma_find_holder_some(holders@, names@[k as int]@);
                    }
                },
            }
            proof {
                assert forall|i: int| 0 <= i < k + 1 implies spec_find_holder(
                    holders@,
                    (#[trigger] names@[i])@,
                ) is Some by {
                    if i < k {
                        lemma_find_holder_push_keeps(pre, names@[i]@, holders@);
                    }
                }
            }
            k += 1;
        }
        TimeshiftManager { holders }
    }

    /// Applies one recorder event to the cached state: `Started` and
    /// `Stopped` move the started flag, `RecordStarted` and `RecordEnded`
    /// move the current record. An unknown recorder name changes nothing.
    pub fn apply_event(&mut self, recorder: &str, event: TimeshiftEvent)
        ensures
            final(self).holders@.len() == old(self).holders@.len(),
            match spec_find_holder(old(self).holders@, recorder@) {
                None => final(self).holders@ == old(self).holders@,
                Some(j) => {
                    &&& forall|i: int|
                        0 <= i < old(self).holders@.len() && i != j
                            ==> final(self).holders@[i] == old(self).holders@[i]
                    &&& ({
                        let o = old(self).holders@[j];
                        let n = final(self).holders@[j];
                        &&& n.name == o.name
                        &&& match event {
                            TimeshiftEvent::Started => n.started == true && n.current_record_id
                                == o.current_record_id,
                            TimeshiftEvent::Stopped => n.started == false && n.current_record_id
                                == o.current_record_id,
                            TimeshiftEvent::RecordStarted { record_id } => n.started == o.started
                                && n.current_record_id == Some(record_id),
                            TimeshiftEvent::RecordEnded { record_id } => n.started == o.started
                                && n.current_record_id is None,
                        }
                    })
                },
            },
    {
        let found = find_holder(&self.holders, recorder);
        match found {
            Option::None => {},
            Option::Some(j) => {
                let mut h = take_holder(&mut self.holders, j);
                match event {
                    TimeshiftEvent::Started => {
                        h.started = true;
                    },
                    TimeshiftEvent::Stopped => {
                        h.started = false;
                    },
                    TimeshiftEvent::RecordStarted { record_id } => {
                        h.current_record_id = Some(record_id);
                    },
                    TimeshiftEvent::RecordEnded { record_id: _ } => {
                        h.current_record_id = None;
                    },
                }
                put_holder(&mut self.holders, j, &mut h);
            },
        }
    }

    /// A recorder failed its health check and was respawned: its cached
    /// state is reset.
    pub fn reset_holder(&mut self, index: usize)
        requires
            index < old(self).holders@.len(),
        ensures
            final(self).holders@.len() == old(self).holders@.len(),
            forall|i: int|
                0 <= i < old(self).holders@.len() && i != index ==> final(self).holders@[i] == old(
                    self,
                ).holders@[i],
            final(self).holders@[index as int].name == old(self).holders@[index as int].name,
            !final(self).holders@[index as int].started,
            final(self).holders@[index as int].current_record_id is None,
    {
        let mut h = take_holder(&mut self.holders, index);
        h.started = false;
        h.current_record_id = None;
        put_holder(&mut self.holders, index, &mut h);
    }

    /// The events a freshly registered emitter must be told before it sees
    /// live ones: the cached history of each recorder, in pool order. The
    /// runtime sends them from a task of its own, away from the mailbox,
    /// so a small emitter channel cannot deadlock the manager.
    pub fn replay_events(&self) -> (r: Vec<(String, TimeshiftEvent)>)
        ensures
            r@ == replay_of(self.holders@),
    {
        let mut out: Vec<(String, TimeshiftEvent)> = Vec::new();
        let mut k: usize = 0;
        while k < self.holders.len()
            invariant
                0 <= k <= self.holders@.len(),
                out@ == replay_of(self.holders@.subrange(0, k as int)),
            decreases self.holders@.len() - k,
        {
            let ghost pre = self.holders@.subrange(0, k as int);
            proof {
                assert(self.holders@.subrange(0, k + 1 as int).drop_last() =~= pre);
                assert(self.holders@.subrange(0, k + 1 as int).last() == self.holders@[k as int]);
            }
            let h = &self.holders[k];
            if h.started {
                out.push((h.name.clone(), TimeshiftEvent::Started));
            }
            match &h.current_record_id {
                Option::Some(id) => {
                    out.push((h.name.clone(), TimeshiftEvent::RecordStarted { record_id: *id }));
                },
                Option::None => {},
            }
            proof {
                assert(out@ =~= replay_of(self.holders@.subrange(0, k + 1 as int)));
            }
            k += 1;
        }
        proof {
            assert(self.holders@.subrange(0, self.holders@.len() as int) =~= self.holders@);
        }
        out
    }
}

/// How a query names a recorder: by pool position or by name.
pub enum TimeshiftRecorderQuery {
    ByIndex(usize),
    ByName(String),
}

impl TimeshiftManager {
    /// Resolves a recorder query to its pool position; a position past the
    /// pool or a name nobody carries is `RecordNotFound`, as the whole
    /// query is then about a record that does not exist.
    pub fn resolve_recorder(&self, query: &TimeshiftRecorderQuery) -> (r: Result<
        usize,
        crate::errors::Error,
    >)
        ensures
            match query {
                TimeshiftRecorderQuery::ByIndex(i) => if (i as int) < self.holders@.len() {
                    r == Ok::<usize, crate::errors::Error>(*i)
                } else {
                    r == Err::<usize, crate::errors::Error>(crate::errors::Error::RecordNotFound)
                },
                TimeshiftRecorderQuery::ByName(name) => match spec_find_holder(
                    self.holders@,
                    name@,
                ) {
                    Some(j) => r == Ok::<usize, crate::errors::Error>(j as usize),
                    None => r == Err::<usize, crate::errors::Error>(
                        crate::errors::Error::RecordNotFound,
                    ),
                },
            },
    {
        match query {
            TimeshiftRecorderQuery::ByIndex(i) => {
                if *i < self.holders.len() {
                    Ok(*i)
                } else {
                    Err(crate::errors::Error::RecordNotFound)
                }
            },
            TimeshiftRecorderQuery::ByName(name) => {
                match find_holder(&self.holders, name.as_str()) {
                    Option::Some(j) => Ok(j),
                    Option::None => Err(crate::errors::Error::RecordNotFound),
                }
            },
        }
    }
}

/// First holder carrying this recorder name, if any.
pub open spec fn spec_find_holder(holders: Seq<RecorderHolder>, name: Seq<char>) -> Option<int>
    decreases holders.len(),
{
    if holders.len() == 0 {
        None
    } else if holders[0].name@ == name {
        Some(0)
    } else {
        match spec_find_holder(holders.drop_first(), name) {
            Some(i) => Some(i + 1),
            None => None,
        }
    }
}

/// Decides `spec_find_holder`.
pub fn find_holder(holders: &Vec<RecorderHolder>, name: &str) -> (r: Option<usize>)
    ensures
        match r {
            Some(i) => spec_find_holder(holders@, name@) == Some(i as int) && i < holders@.len()
                && holders@[i as int].name@ == name@,
            None => spec_find_holder(holders@, name@) is None && forall|i: int|
                0 <= i < holders@.len() ==> (#[trigger] holders@[i]).name@ != name@,
        },
{
    let mut k: usize = 0;
    while k < holders.len()
        invariant
            0 <= k <= holders@.len(),
            forall|i: int| 0 <= i < k ==> (#[trigger] holders@[i]).name@ != name@,
        decreases holders@.len() - k,
    {
        if crate::strutil::str_eq(holders[k].name.as_str(), name) {
            proof {
                lemma_find_holder_at(holders@, name@, k as int);
            }
            return Some(k);
        }
        k += 1;
    }
    proof {
        lemma_find_holder_none(holders@, name@);
    }
    None
}

/// A list holding the name somewhere has a first position holding it.
proof fn lemma_find_holder_some(holders: Seq<RecorderHolder>, name: Seq<char>)
    requires
        exists|i: int| 0 <= i < holders.len() && (#[trigger] holders[i]).name@ == name,
    ensures
        spec_find_holder(holders, name) is Some,
    decreases holders.len(),
{
    let w = choose|i: int| 0 <= i < holders.len() && (#[trigger] holders[i]).name@ == name;
    if holders[0].name@ != name {
        assert(holders.drop_first()[w - 1].name@ == name);
        lemma_find_holder_some(holders.drop_first(), name);
    }
}

/// What was found stays found when the list only grew at the end.
proof fn lemma_find_holder_push_keeps(
    pre: Seq<RecorderHolder>,
    name: Seq<char>,
    post: Seq<RecorderHolder>,
)
    requires
        spec_find_holder(pre, name) is Some,
        pre.len() <= post.len(),
        forall|i: int| 0 <= i < pre.len() ==> #[trigger] post[i] == pre[i],
    ensures
        spec_find_holder(post, name) is Some,
{
    lemma_find_holder_props(pre, name);
    let j = spec_find_holder(pre, name).unwrap();
    assert(post[j].name@ == name);
    lemma_find_holder_some(post, name);
}

/// Where the search lands, the name matches.
proof fn lemma_find_holder_props(holders: Seq<RecorderHolder>, name: Seq<char>)
    ensures
        spec_find_holder(holders, name) matches Some(j) ==> 0 <= j < holders.len()
            && holders[j].name@ == name,
    decreases holders.len(),
{
    if holders.len() > 0 && holders[0].name@ != name {
        lemma_find_holder_props(holders.drop_first(), name);
    }
}

/// A matching position with none before it is the one found.
proof fn lemma_find_holder_at(holders: Seq<RecorderHolder>, name: Seq<char>, k: int)
    requires
        0 <= k < holders.len(),
        holders[k].name@ == name,
        forall|i: int| 0 <= i < k ==> (#[trigger] holders[i]).name@ != name,
    ensures
        spec_find_holder(holders, name) == Some(k),
    decreases holders.len(),
{
    if k > 0 {
        lemma_find_holder_at(holders.drop_first(), name, k - 1);
    }
}

/// With no matching position, nothing is found.
proof fn lemma_find_holder_none(holders: Seq<RecorderHolder>, name: Seq<char>)
    requires
        forall|i: int| 0 <= i < holders.len() ==> (#[trigger] holders[i]).name@ != name,
    ensures
        spec_find_holder(holders, name) is None,
    decreases holders.len(),
{
    if holders.len() > 0 {
        lemma_find_holder_none(holders.drop_first(), name);
    }
}

/// Takes the holder at `k` out of the vector, leaving a placeholder.
fn take_holder(holders: &mut Vec<RecorderHolder>, k: usize) -> (r: RecorderHolder)
    requires
        k < old(holders)@.len(),
    ensures
        r == old(holders)@[k as int],
        final(holders)@.len() == old(holders)@.len(),
        forall|j: int|
            0 <= j < old(holders)@.len() && j != k ==> final(holders)@[j] == old(holders)@[j],
{
    let mut tmp = RecorderHolder { name: String::new(), started: false, current_record_id: None };
    holders.set_and_swap(k, &mut tmp);
    tmp
}

/// Puts a holder back at `k`.
fn put_holder(holders: &mut Vec<RecorderHolder>, k: usize, h: &mut RecorderHolder)
    requires
        k < old(holders)@.len(),
    ensures
        final(holders)@ == old(holders)@.update(k as int, *old(h)),
{
    holders.set_and_swap(k, h);
}

/// How long until the next health check, which runs fifty seconds past
/// each minute: the wait is positive and lands exactly on the mark.
pub fn millis_until_health_check(now_ms: u64) -> (r: u64)
    requires
        now_ms + 60000 <= u64::MAX,
    ensures
        1 <= r <= 60000,
        (now_ms + r) % 60000 == 50000,
{
    let m = now_ms % 60000;
    if m < 50000 {
        50000 - m
    } else {
        110000 - m
    }
}

} // verus!
