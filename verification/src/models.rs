//! Data model shared by the tuner, timeshift and web layers: channel types,
//! tuner users and priorities, session and subscription identifiers, and the
//! Mirakurun-compatible view models.

use vstd::prelude::*;

use crate::strutil::str_eq;
use crate::strutil::string_eq;

verus! {

/// Broadcast network a channel belongs to.
#[derive(Clone, Copy, PartialEq, Eq, Structural, Debug, Hash)]
pub enum ChannelType {
    GR,
    BS,
    CS,
    SKY,
}

impl ChannelType {
    /// Reads a channel type from its upper-case name; any other string is
    /// rejected.
    pub fn parse(s: &str) -> (r: Option<ChannelType>)
        ensures
            r == Self::spec_parse(s@),
    {
        if str_eq(s, "GR") {
            Some(ChannelType::GR)
        } else if str_eq(s, "BS") {
            Some(ChannelType::BS)
        } else if str_eq(s, "CS") {
            Some(ChannelType::CS)
        } else if str_eq(s, "SKY") {
            Some(ChannelType::SKY)
        } else {
            None
        }
    }

    pub open spec fn spec_parse(s: Seq<char>) -> Option<ChannelType> {
        if s == "GR"@ {
            Some(ChannelType::GR)
        } else if s == "BS"@ {
            Some(ChannelType::BS)
        } else if s == "CS"@ {
            Some(ChannelType::CS)
        } else if s == "SKY"@ {
            Some(ChannelType::SKY)
        } else {
            None
        }
    }

    /// The upper-case name of the channel type.
    pub fn name(&self) -> (r: &'static str)
        ensures
            r@ == self.spec_name(),
    {
        proof {
            reveal_strlit("GR");
            reveal_strlit("BS");
            reveal_strlit("CS");
            reveal_strlit("SKY");
        }
        match self {
            ChannelType::GR => "GR",
            ChannelType::BS => "BS",
            ChannelType::CS => "CS",
            ChannelType::SKY => "SKY",
        }
    }

    pub open spec fn spec_name(&self) -> Seq<char> {
        match self {
            ChannelType::GR => "GR"@,
            ChannelType::BS => "BS"@,
            ChannelType::CS => "CS"@,
            ChannelType::SKY => "SKY"@,
        }
    }
}

/// A physical channel as the tuner layer sees it.
#[derive(Clone, Debug)]
pub struct Channel {
    pub name: String,
    pub channel_type: ChannelType,
    pub channel: String,
    pub extra_args: String,
}

impl Channel {
    /// A copy equal to `self` as a value.
    pub fn duplicate(&self) -> (r: Channel)
        ensures
            r == *self,
    {
        Channel {
            name: self.name.clone(),
            channel_type: self.channel_type,
            channel: self.channel.clone(),
            extra_args: self.extra_args.clone(),
        }
    }
}

/// Identifies one activation of one tuner. Unique across the process
/// lifetime: the session number comes from a monotonic counter.
#[derive(Clone, Copy, PartialEq, Eq, Structural, Debug)]
pub struct TunerSessionId {
    pub tuner_index: usize,
    pub session_number: u32,
}

impl TunerSessionId {
    pub fn new(tuner_index: usize, session_number: u32) -> (r: Self)
        ensures
            r.tuner_index == tuner_index,
            r.session_number == session_number,
    {
        TunerSessionId { tuner_index, session_number }
    }
}

/// Identifies one subscriber of one tuner session. Serial numbers start at 1
/// within each session.
#[derive(Clone, Copy, PartialEq, Eq, Structural, Debug)]
pub struct TunerSubscriptionId {
    pub session_id: TunerSessionId,
    pub serial_number: u32,
}

impl TunerSubscriptionId {
    pub fn new(session_id: TunerSessionId, serial_number: u32) -> (r: Self)
        ensures
            r.session_id == session_id,
            r.serial_number == serial_number,
    {
        TunerSubscriptionId { session_id, serial_number }
    }
}

impl TunerSessionId {
    /// The session id as text: `tuner#<index>.<number>`.
    pub fn display_string(&self) -> (r: String)
        ensures
            r@ == "tuner#"@ + crate::decimal::dec_of(self.tuner_index as nat) + "."@
                + crate::decimal::dec_of(self.session_number as nat),
    {
        let mut out = String::from_str("tuner#");
        out.append(crate::decimal::usize_to_string(self.tuner_index).as_str());
        out.append(".");
        out.append(crate::decimal::u32_to_string(self.session_number).as_str());
        out
    }
}

impl TunerSubscriptionId {
    /// The subscription id as text: the session id and the serial.
    pub fn display_string(&self) -> (r: String)
        ensures
            r@ == "tuner#"@ + crate::decimal::dec_of(self.session_id.tuner_index as nat) + "."@
                + crate::decimal::dec_of(self.session_id.session_number as nat) + "."@
                + crate::decimal::dec_of(self.serial_number as nat),
    {
        let mut out = self.session_id.display_string();
        out.append(".");
        out.append(crate::decimal::u32_to_string(self.serial_number).as_str());
        out
    }
}

/// Who is consuming a tuner session.
#[derive(Clone, Debug)]
pub enum TunerUserInfo {
    Web { id: String, agent: Option<String> },
    Job { name: String },
    OnairProgramTracker { name: String },
    Tracker { stream_id: TunerSubscriptionId },
    Recorder { name: String },
    TimeshiftRecorder { name: String },
}

impl TunerUserInfo {
    /// Structural equality of user identities, over the string contents.
    pub open spec fn spec_eq(self, other: TunerUserInfo) -> bool {
        match (self, other) {
            (
                TunerUserInfo::Web { id: a, agent: b },
                TunerUserInfo::Web { id: c, agent: d },
            ) => a@ == c@ && match (b, d) {
                (None, None) => true,
                (Some(x), Some(y)) => x@ == y@,
                _ => false,
            },
            (TunerUserInfo::Job { name: a }, TunerUserInfo::Job { name: b }) => a@ == b@,
            (
                TunerUserInfo::OnairProgramTracker { name: a },
                TunerUserInfo::OnairProgramTracker { name: b },
            ) => a@ == b@,
            (
                TunerUserInfo::Tracker { stream_id: a },
                TunerUserInfo::Tracker { stream_id: b },
            ) => a == b,
            (TunerUserInfo::Recorder { name: a }, TunerUserInfo::Recorder { name: b }) => a@
                == b@,
            (
                TunerUserInfo::TimeshiftRecorder { name: a },
                TunerUserInfo::TimeshiftRecorder { name: b },
            ) => a@ == b@,
            _ => false,
        }
    }

    /// Decides `spec_eq`.
    pub fn same_as(&self, other: &TunerUserInfo) -> (r: bool)
        ensures
            r == self.spec_eq(*other),
    {
        match (self, other) {
            (TunerUserInfo::Web { id: a, agent: b }, TunerUserInfo::Web { id: c, agent: d }) => {
                string_eq(a, c) && match (b, d) {
                    (Option::None, Option::None) => true,
                    (Option::Some(x), Option::Some(y)) => string_eq(x, y),
                    _ => false,
                }
            }
            (TunerUserInfo::Job { name: a }, TunerUserInfo::Job { name: b }) => string_eq(a, b),
            (
                TunerUserInfo::OnairProgramTracker { name: a },
                TunerUserInfo::OnairProgramTracker { name: b },
            ) => string_eq(a, b),
            (TunerUserInfo::Tracker { stream_id: a }, TunerUserInfo::Tracker { stream_id: b }) => {
                a.session_id.tuner_index == b.session_id.tuner_index
                    && a.session_id.session_number == b.session_id.session_number
                    && a.serial_number == b.serial_number
            }
            (TunerUserInfo::Recorder { name: a }, TunerUserInfo::Recorder { name: b }) => {
                string_eq(a, b)
            }
            (
                TunerUserInfo::TimeshiftRecorder { name: a },
                TunerUserInfo::TimeshiftRecorder { name: b },
            ) => string_eq(a, b),
            _ => false,
        }
    }
}

impl TunerUserInfo {
    /// A copy equal to `self` as a value.
    pub fn duplicate(&self) -> (r: TunerUserInfo)
        ensures
            r == *self,
    {
        match self {
            TunerUserInfo::Web { id, agent } => TunerUserInfo::Web {
                id: id.clone(),
                agent: match agent {
                    Option::Some(a) => Option::Some(a.clone()),
                    Option::None => Option::None,
                },
            },
            TunerUserInfo::Job { name } => TunerUserInfo::Job { name: name.clone() },
            TunerUserInfo::OnairProgramTracker { name } => TunerUserInfo::OnairProgramTracker {
                name: name.clone(),
            },
            TunerUserInfo::Tracker { stream_id } => TunerUserInfo::Tracker {
                stream_id: *stream_id,
            },
            TunerUserInfo::Recorder { name } => TunerUserInfo::Recorder { name: name.clone() },
            TunerUserInfo::TimeshiftRecorder { name } => TunerUserInfo::TimeshiftRecorder {
                name: name.clone(),
            },
        }
    }
}

/// Admission priority of a tuner user. `grab()` is the sentinel maximum that
/// always wins; equal priorities can never evict each other.
#[derive(Clone, Copy, PartialEq, Eq, Structural, Debug)]
pub struct TunerUserPriority {
    pub value: i32,
}

impl TunerUserPriority {
    pub fn new(value: i32) -> (r: Self)
        ensures
            r.value == value,
    {
        TunerUserPriority { value }
    }

    /// The sentinel priority that unconditionally wins admission.
    pub fn grab() -> (r: Self)
        ensures
            r.is_grab(),
            r.value == i32::MAX,
    {
        TunerUserPriority { value: i32::MAX }
    }

    pub open spec fn is_grab(self) -> bool {
        self.value == i32::MAX
    }

    /// Decides `is_grab`.
    pub fn check_grab(&self) -> (r: bool)
        ensures
            r == self.is_grab(),
    {
        self.value == i32::MAX
    }
}

/// One consumer of a tuner session: who it is and how strongly it may claim
/// a tuner.
#[derive(Clone, Debug)]
pub struct TunerUser {
    pub info: TunerUserInfo,
    pub priority: TunerUserPriority,
}

impl TunerUser {
    /// A copy equal to `self` as a value.
    pub fn duplicate(&self) -> (r: TunerUser)
        ensures
            r == *self,
    {
        TunerUser { info: self.info.duplicate(), priority: self.priority }
    }

    /// The user as the Mirakurun-compatible API reports it.
    pub fn get_mirakurun_model(&self) -> (r: MirakurunTunerUser)
        ensures
            r.id@ == user_label_of(self.info),
            r.priority == self.priority.value,
    {
        MirakurunTunerUser { id: self.info.label(), priority: self.priority.value }
    }
}

/// The label a tuner user is reported under: a web user by its remote
/// address, the others by their kind and name or stream.
pub open spec fn user_label_of(info: TunerUserInfo) -> Seq<char> {
    match info {
        TunerUserInfo::Web { id, agent } => id@,
        TunerUserInfo::Job { name } => "job#"@ + name@,
        TunerUserInfo::OnairProgramTracker { name } => "tracker#"@ + name@,
        TunerUserInfo::Tracker { stream_id } => "tuner#"@ + crate::decimal::dec_of(
            stream_id.session_id.tuner_index as nat,
        ) + "."@ + crate::decimal::dec_of(stream_id.session_id.session_number as nat) + "."@
            + crate::decimal::dec_of(stream_id.serial_number as nat),
        TunerUserInfo::Recorder { name } => "recorder#"@ + name@,
        TunerUserInfo::TimeshiftRecorder { name } => "timeshift#"@ + name@,
    }
}

impl TunerUserInfo {
    /// Computes `user_label_of`.
    pub fn label(&self) -> (r: String)
        ensures
            r@ == user_label_of(*self),
    {
        match self {
            TunerUserInfo::Web { id, agent } => id.clone(),
            TunerUserInfo::Job { name } => {
                let mut out = String::from_str("job#");
                out.append(name.as_str());
                out
            },
            TunerUserInfo::OnairProgramTracker { name } => {
                let mut out = String::from_str("tracker#");
                out.append(name.as_str());
                out
            },
            TunerUserInfo::Tracker { stream_id } => stream_id.display_string(),
            TunerUserInfo::Recorder { name } => {
                let mut out = String::from_str("recorder#");
                out.append(name.as_str());
                out
            },
            TunerUserInfo::TimeshiftRecorder { name } => {
                let mut out = String::from_str("timeshift#");
                out.append(name.as_str());
                out
            },
        }
    }
}

/// The highest non-negative priority among the request's candidate values,
/// or 0 where none parses. Mirrors how the `x-mirakurun-priority` headers
/// are folded into one priority.
pub fn priority_from_candidates(candidates: &Vec<i32>) -> (r: TunerUserPriority)
    ensures
        candidates@.len() == 0 ==> r.value == 0,
        r.value >= 0,
        forall|i: int| 0 <= i < candidates@.len() ==> candidates@[i] <= r.value,
        r.value > 0 ==> exists|i: int| 0 <= i < candidates@.len() && candidates@[i] == r.value,
{
    let mut best: i32 = 0;
    let mut k: usize = 0;
    while k < candidates.len()
        invariant
            0 <= k <= candidates@.len(),
            best >= 0,
            forall|i: int| 0 <= i < k ==> candidates@[i] <= best,
            best > 0 ==> exists|i: int| 0 <= i < k && candidates@[i] == best,
        decreases candidates@.len() - k,
    {
        if candidates[k] > best {
            best = candidates[k];
        }
        k += 1;
    }
    TunerUserPriority { value: best }
}

/// A service as the Mirakurun-compatible API identifies it: network and
/// service id folded into one number.
#[derive(Clone, Copy, PartialEq, Eq, Structural, Debug)]
pub struct MirakurunServiceId {
    pub nid: u16,
    pub sid: u16,
}

impl MirakurunServiceId {
    pub fn new(nid: u16, sid: u16) -> (r: Self)
        ensures
            r.nid == nid,
            r.sid == sid,
    {
        MirakurunServiceId { nid, sid }
    }

    /// The folded number: `nid * 100000 + sid`.
    pub open spec fn spec_value(self) -> int {
        self.nid * 100000 + self.sid
    }

    /// Computes `spec_value`.
    pub fn value(&self) -> (r: u64)
        ensures
            r == self.spec_value(),
    {
        (self.nid as u64) * 100000 + (self.sid as u64)
    }
}

/// A program as the Mirakurun-compatible API identifies it: network,
/// service and event id folded into one number.
#[derive(Clone, Copy, PartialEq, Eq, Structural, Debug)]
pub struct MirakurunProgramId {
    pub nid: u16,
    pub sid: u16,
    pub eid: u16,
}

impl MirakurunProgramId {
    pub fn new(nid: u16, sid: u16, eid: u16) -> (r: Self)
        ensures
            r.nid == nid,
            r.sid == sid,
            r.eid == eid,
    {
        MirakurunProgramId { nid, sid, eid }
    }

    /// The folded number: `(nid * 100000 + sid) * 100000 + eid`.
    pub open spec fn spec_value(self) -> int {
        (self.nid * 100000 + self.sid) * 100000 + self.eid
    }

    /// Computes `spec_value`.
    pub fn value(&self) -> (r: u64)
        ensures
            r == self.spec_value(),
    {
        ((self.nid as u64) * 100000 + (self.sid as u64)) * 100000 + (self.eid as u64)
    }
}

/// A tuner user as the Mirakurun-compatible API reports it.
#[derive(Clone, Debug)]
pub struct MirakurunTunerUser {
    pub id: String,
    pub priority: i32,
}

/// A tuner as the Mirakurun-compatible API reports it.
#[derive(Clone, Debug)]
pub struct MirakurunTuner {
    pub index: usize,
    pub name: String,
    pub channel_types: Vec<ChannelType>,
    pub command: Option<String>,
    pub pid: Option<u32>,
    pub users: Vec<MirakurunTunerUser>,
    pub is_available: bool,
    pub is_remote: bool,
    pub is_free: bool,
    pub is_using: bool,
    pub is_fault: bool,
}

} // verus!
