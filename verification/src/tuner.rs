//! One tuner: its configuration, its activity, and the session that runs on
//! it while it is active.
//!
//! A session is the data the process keeps about one activation: the
//! rendered receiver command, the filter commands behind it, the split
//! shell words of the whole pipeline, and the subscribers. Spawning the
//! pipeline and pumping its bytes is the runtime's work; everything the
//! runtime decides from is computed and checked here.

use vstd::prelude::*;
use vstd::assert_by_contradiction;

use crate::command::spec_shell_words;
use crate::command::split_shell_words;
use crate::errors::Error;
use crate::models::Channel;
use crate::models::ChannelType;
use crate::models::TunerSessionId;
use crate::models::TunerSubscriptionId;
use crate::models::TunerUser;
use crate::models::TunerUserInfo;
use crate::models::TunerUserPriority;
use crate::template::render_template;
use crate::template::render_of;
use crate::template::template_safe;
use crate::template::fields_view;

verus! {

/// Configuration of one tuner device, as the operator wrote it.
pub struct TunerConfig {
    pub name: String,
    pub channel_types: Vec<ChannelType>,
    pub command: String,
    pub time_limit: u64,
    pub disabled: bool,
    pub decoded: bool,
    pub dedicated_for: Option<String>,
}

/// One consumer registered on a session, keyed by its serial number.
pub struct Subscriber {
    pub serial_number: u32,
    pub user: TunerUser,
}

/// What one activation of a tuner holds.
pub struct TunerSession {
    pub id: TunerSessionId,
    pub channel: Channel,
    /// The rendered receiver command, the head of the pipeline.
    pub command: String,
    /// The whole pipeline: the receiver command followed by the filters.
    pub commands: Vec<String>,
    /// The shell words of each pipeline command, in the same order.
    pub pipeline_words: Vec<Vec<String>>,
    /// Process ids the runtime reported after spawning the pipeline.
    pub pids: Vec<u32>,
    pub subscribers: Vec<Subscriber>,
    pub next_serial_number: u32,
}

/// The serials of the session's subscribers, in registration order.
pub open spec fn serials_of(subs: Seq<Subscriber>) -> Seq<u32> {
    subs.map_values(|s: Subscriber| s.serial_number)
}

/// First position holding the given serial, if any.
pub open spec fn spec_find_serial(subs: Seq<Subscriber>, serial: u32) -> Option<int>
    decreases subs.len(),
{
    if subs.len() == 0 {
        None
    } else if subs[0].serial_number == serial {
        Some(0)
    } else {
        match spec_find_serial(subs.drop_first(), serial) {
            Some(i) => Some(i + 1),
            None => None,
        }
    }
}

impl TunerSession {
    /// The session's standing invariant: serials were handed out in
    /// strictly increasing order, and every serial is below the next one
    /// to be handed out.
    pub open spec fn wf(self) -> bool {
        &&& 1 <= self.next_serial_number
        &&& forall|i: int, j: int|
            0 <= i < j < self.subscribers@.len()
                ==> #[trigger] self.subscribers@[i].serial_number
                < #[trigger] self.subscribers@[j].serial_number
        &&& forall|i: int|
            0 <= i < self.subscribers@.len()
                ==> #[trigger] self.subscribers@[i].serial_number < self.next_serial_number
    }

    /// Whether a request for this channel can share the session: same
    /// channel type, same channel string.
    pub open spec fn spec_is_reuseable(self, channel: Channel) -> bool {
        self.channel.channel_type == channel.channel_type && self.channel.channel@
            == channel.channel@
    }

    /// Decides `spec_is_reuseable`.
    pub fn is_reuseable(&self, channel: &Channel) -> (r: bool)
        ensures
            r == self.spec_is_reuseable(*channel),
    {
        channel_type_eq(self.channel.channel_type, channel.channel_type)
            && crate::strutil::string_eq(&self.channel.channel, &channel.channel)
    }

    /// Whether a user of this priority may evict every current subscriber.
    pub open spec fn spec_can_grab(self, priority: TunerUserPriority) -> bool {
        forall|i: int|
            0 <= i < self.subscribers@.len()
                ==> #[trigger] self.subscribers@[i].user.priority.value < priority.value
    }

    /// Decides `spec_can_grab`.
    pub fn can_grab(&self, priority: TunerUserPriority) -> (r: bool)
        ensures
            r == self.spec_can_grab(priority),
    {
        let mut k: usize = 0;
        while k < self.subscribers.len()
            invariant
                0 <= k <= self.subscribers@.len(),
                forall|i: int|
                    0 <= i < k ==> #[trigger] self.subscribers@[i].user.priority.value
                        < priority.value,
            decreases self.subscribers@.len() - k,
        {
            if self.subscribers[k].user.priority.value >= priority.value {
                return false;
            }
            k += 1;
        }
        true
    }

    /// Registers a user under the next serial number. Returns nothing when
    /// the session has handed out every serial it has.
    pub fn subscribe(&mut self, user: TunerUser) -> (r: Option<TunerSubscriptionId>)
        requires
            old(self).wf(),
        ensures
            final(self).wf(),
            final(self).id == old(self).id,
            final(self).channel == old(self).channel,
            final(self).command == old(self).command,
            final(self).commands == old(self).commands,
            final(self).pipeline_words == old(self).pipeline_words,
            final(self).pids == old(self).pids,
            match r {
                Some(id) => {
                    &&& old(self).next_serial_number < u32::MAX
                    &&& id.session_id == old(self).id
                    &&& id.serial_number == old(self).next_serial_number
                    &&& final(self).subscribers@ == old(self).subscribers@.push(
                        (Subscriber { serial_number: old(self).next_serial_number, user }),
                    )
                    &&& final(self).next_serial_number == old(self).next_serial_number + 1
                },
                None => {
                    &&& old(self).next_serial_number == u32::MAX
                    &&& final(self).subscribers == old(self).subscribers
                    &&& final(self).next_serial_number == old(self).next_serial_number
                },
            },
    {
        if self.next_serial_number == u32::MAX {
            return None;
        }
        let serial_number = self.next_serial_number;
        self.next_serial_number = self.next_serial_number + 1;
        self.subscribers.push(Subscriber { serial_number, user });
        Some(TunerSubscriptionId::new(self.id, serial_number))
    }

    /// Removes the subscriber the id names. Fails when the id speaks of
    /// another session; removing an already-removed subscriber changes
    /// nothing. Returns how many subscribers remain.
    pub fn stop_streaming(&mut self, id: TunerSubscriptionId) -> (r: Result<usize, Error>)
        requires
            old(self).wf(),
        ensures
            final(self).wf(),
            final(self).id == old(self).id,
            final(self).channel == old(self).channel,
            final(self).command == old(self).command,
            final(self).commands == old(self).commands,
            final(self).pipeline_words == old(self).pipeline_words,
            final(self).pids == old(self).pids,
            final(self).next_serial_number == old(self).next_serial_number,
            match r {
                Ok(n) => {
                    &&& id.session_id == old(self).id
                    &&& match spec_find_serial(old(self).subscribers@, id.serial_number) {
                        Some(j) => final(self).subscribers@ == old(self).subscribers@.remove(j),
                        None => final(self).subscribers == old(self).subscribers,
                    }
                    &&& n == final(self).subscribers@.len()
                },
                Err(e) => {
                    &&& e == Error::SessionNotFound
                    &&& id.session_id != old(self).id
                    &&& final(self).subscribers == old(self).subscribers
                },
            },
    {
        if !(self.id.tuner_index == id.session_id.tuner_index && self.id.session_number
            == id.session_id.session_number) {
            return Err(Error::SessionNotFound);
        }
        let mut k: usize = 0;
        while k < self.subscribers.len()
            invariant
                old(self).wf(),
                *self == *old(self),
                id.session_id == old(self).id,
                0 <= k <= self.subscribers@.len(),
                forall|i: int|
                    0 <= i < k ==> #[trigger] self.subscribers@[i].serial_number
                        != id.serial_number,
            decreases self.subscribers@.len() - k,
        {
            if self.subscribers[k].serial_number == id.serial_number {
                proof {
                    lemma_find_serial_at(self.subscribers@, id.serial_number, k as int);
                }
                self.subscribers.remove(k);
                proof {
                    lemma_remove_keeps_order(old(self).subscribers@, k as int);
                    assert forall|i: int|
                        0 <= i < self.subscribers@.len() implies #[trigger] self.subscribers@[i].serial_number
                        < self.next_serial_number by {
                        if i < k {
                            assert(self.subscribers@[i] == old(self).subscribers@[i]);
                        } else {
                            assert(self.subscribers@[i] == old(self).subscribers@[i + 1]);
                        }
                    }
                }
                let n = self.subscribers.len();
                return Ok(n);
            }
            k += 1;
        }
        proof {
            lemma_find_serial_none(self.subscribers@, id.serial_number);
        }
        let n = self.subscribers.len();
        Ok(n)
    }
}

/// Structural equality of channel types.
pub fn channel_type_eq(a: ChannelType, b: ChannelType) -> (r: bool)
    ensures
        r == (a == b),
{
    match (a, b) {
        (ChannelType::GR, ChannelType::GR) => true,
        (ChannelType::BS, ChannelType::BS) => true,
        (ChannelType::CS, ChannelType::CS) => true,
        (ChannelType::SKY, ChannelType::SKY) => true,
        _ => false,
    }
}

/// If position `k` holds the serial and nothing before it does, the first
/// position holding the serial is `k`.
proof fn lemma_find_serial_at(subs: Seq<Subscriber>, serial: u32, k: int)
    requires
        0 <= k < subs.len(),
        subs[k].serial_number == serial,
        forall|i: int| 0 <= i < k ==> #[trigger] subs[i].serial_number != serial,
    ensures
        spec_find_serial(subs, serial) == Some(k),
    decreases subs.len(),
{
    if k > 0 {
        lemma_find_serial_at(subs.drop_first(), serial, k - 1);
    }
}

/// If no position holds the serial, the search finds nothing.
proof fn lemma_find_serial_none(subs: Seq<Subscriber>, serial: u32)
    requires
        forall|i: int| 0 <= i < subs.len() ==> #[trigger] subs[i].serial_number != serial,
    ensures
        spec_find_serial(subs, serial) is None,
    decreases subs.len(),
{
    if subs.len() > 0 {
        lemma_find_serial_none(subs.drop_first(), serial);
    }
}

/// Removing one subscriber keeps the remaining serials strictly increasing.
proof fn lemma_remove_keeps_order(subs: Seq<Subscriber>, k: int)
    requires
        0 <= k < subs.len(),
        forall|i: int, j: int|
            0 <= i < j < subs.len() ==> #[trigger] subs[i].serial_number
                < #[trigger] subs[j].serial_number,
    ensures
        forall|i: int, j: int|
            0 <= i < j < subs.remove(k).len() ==> #[trigger] subs.remove(k)[i].serial_number
                < #[trigger] subs.remove(k)[j].serial_number,
{
    assert forall|i: int, j: int|
        0 <= i < j < subs.remove(k).len() implies #[trigger] subs.remove(k)[i].serial_number
        < #[trigger] subs.remove(k)[j].serial_number by {
        let i0 = if i < k {
            i
        } else {
            i + 1
        };
        let j0 = if j < k {
            j
        } else {
            j + 1
        };
        assert(subs.remove(k)[i] == subs[i0]);
        assert(subs.remove(k)[j] == subs[j0]);
        assert(subs[i0].serial_number < subs[j0].serial_number);
    }
}

/// Whether a tuner is idle or carries a session.
pub enum TunerActivity {
    Inactive,
    Active(TunerSession),
}

/// One tuner device: its configuration and its current activity.
pub struct Tuner {
    pub index: usize,
    pub name: String,
    pub channel_types: Vec<ChannelType>,
    pub command: String,
    pub time_limit: u64,
    pub decoded: bool,
    pub dedicated_for: Option<TunerUserInfo>,
    pub activity: TunerActivity,
}

/// The fields a receiver command template is rendered over.
pub open spec fn spec_receiver_fields(channel: Channel) -> Seq<(Seq<char>, Seq<char>)> {
    seq![
        ("channel_type"@, channel.channel_type.spec_name()),
        ("channel"@, channel.channel@),
        ("extra_args"@, channel.extra_args@),
        ("duration"@, "-"@),
    ]
}

/// What rendering the tuner's receiver command template for a channel
/// yields.
pub open spec fn spec_receiver_command(t: Tuner, channel: Channel) -> Option<Seq<char>> {
    if template_safe(t.command@) {
        render_of(t.command@, spec_receiver_fields(channel))
    } else {
        None
    }
}

impl Tuner {
    /// Builds a tuner from its configuration. The dedication, if any, was
    /// resolved by the caller.
    pub fn new(index: usize, config: &TunerConfig, dedicated_for: Option<TunerUserInfo>) -> (r:
        Tuner)
        ensures
            r.index == index,
            r.name == config.name,
            r.channel_types@ == config.channel_types@,
            r.command == config.command,
            r.time_limit == config.time_limit,
            r.decoded == config.decoded,
            r.dedicated_for == dedicated_for,
            r.activity is Inactive,
    {
        Tuner {
            index,
            name: config.name.clone(),
            channel_types: clone_channel_types(&config.channel_types),
            command: config.command.clone(),
            time_limit: config.time_limit,
            decoded: config.decoded,
            dedicated_for,
            activity: TunerActivity::Inactive,
        }
    }

    /// The tuner's standing invariant: an active session is well formed and
    /// carries this tuner's index.
    pub open spec fn wf(self) -> bool {
        match self.activity {
            TunerActivity::Inactive => true,
            TunerActivity::Active(s) => s.wf() && s.id.tuner_index == self.index,
        }
    }

    pub open spec fn spec_is_active(self) -> bool {
        self.activity is Active
    }

    /// A tuner is active exactly while its activity holds a session.
    pub fn is_active(&self) -> (r: bool)
        ensures
            r == self.spec_is_active(),
    {
        match self.activity {
            TunerActivity::Inactive => false,
            TunerActivity::Active(_) => true,
        }
    }

    /// A tuner is available exactly while it is inactive.
    pub fn is_available(&self) -> (r: bool)
        ensures
            r == !self.spec_is_active(),
    {
        !self.is_active()
    }

    pub open spec fn spec_supports(self, channel_type: ChannelType) -> bool {
        self.channel_types@.contains(channel_type)
    }

    /// Decides `spec_supports`.
    pub fn is_supported_type(&self, channel: &Channel) -> (r: bool)
        ensures
            r == self.spec_supports(channel.channel_type),
    {
        let mut k: usize = 0;
        while k < self.channel_types.len()
            invariant
                0 <= k <= self.channel_types@.len(),
                forall|i: int| 0 <= i < k ==> self.channel_types@[i] != channel.channel_type,
            decreases self.channel_types@.len() - k,
        {
            if channel_type_eq(self.channel_types[k], channel.channel_type) {
                return true;
            }
            k += 1;
        }
        false
    }

    /// Inactive and supporting the channel's type.
    pub fn is_available_for(&self, channel: &Channel) -> (r: bool)
        ensures
            r == (!self.spec_is_active() && self.spec_supports(channel.channel_type)),
    {
        self.is_available() && self.is_supported_type(channel)
    }

    pub open spec fn spec_is_reuseable(self, channel: Channel) -> bool {
        match self.activity {
            TunerActivity::Inactive => false,
            TunerActivity::Active(s) => s.spec_is_reuseable(channel),
        }
    }

    /// Decides `spec_is_reuseable`.
    pub fn is_reuseable(&self, channel: &Channel) -> (r: bool)
        ensures
            r == self.spec_is_reuseable(*channel),
    {
        match &self.activity {
            TunerActivity::Inactive => false,
            TunerActivity::Active(s) => s.is_reuseable(channel),
        }
    }

    pub open spec fn spec_is_dedicated_for(self, user: TunerUser) -> bool {
        match self.dedicated_for {
            Some(d) => d.spec_eq(user.info),
            None => false,
        }
    }

    /// Decides `spec_is_dedicated_for`.
    pub fn is_dedicated_for(&self, user: &TunerUser) -> (r: bool)
        ensures
            r == self.spec_is_dedicated_for(*user),
    {
        match &self.dedicated_for {
            Some(d) => d.same_as(&user.info),
            None => false,
        }
    }

    pub open spec fn spec_can_grab(self, priority: TunerUserPriority) -> bool {
        priority.is_grab() || match self.activity {
            TunerActivity::Inactive => true,
            TunerActivity::Active(s) => s.spec_can_grab(priority),
        }
    }

    /// Decides `spec_can_grab`: the sentinel priority always may; otherwise
    /// every current subscriber must rank strictly lower.
    pub fn can_grab(&self, priority: TunerUserPriority) -> (r: bool)
        ensures
            r == self.spec_can_grab(priority),
    {
        if priority.check_grab() {
            return true;
        }
        match &self.activity {
            TunerActivity::Inactive => true,
            TunerActivity::Active(s) => s.can_grab(priority),
        }
    }

    /// Drops the session, if any. Idempotent.
    pub fn deactivate(&mut self)
        ensures
            final(self).activity is Inactive,
            final(self).index == old(self).index,
            final(self).name == old(self).name,
            final(self).channel_types == old(self).channel_types,
            final(self).command == old(self).command,
            final(self).time_limit == old(self).time_limit,
            final(self).decoded == old(self).decoded,
            final(self).dedicated_for == old(self).dedicated_for,
    {
        self.activity = TunerActivity::Inactive;
    }

    /// Renders the receiver command for a channel from the tuner's
    /// template. Fails exactly when the template is not plain
    /// interpolation or does not compile.
    pub fn make_command(&self, channel: &Channel) -> (r: Result<String, Error>)
        ensures
            match r {
                Ok(s) => spec_receiver_command(*self, *channel) == Some(s@),
                Err(e) => e == Error::InvalidFilter && spec_receiver_command(*self, *channel)
                    is None,
            },
    {
        let mut fields: Vec<(String, String)> = Vec::new();
        fields.push((String::from_str("channel_type"), String::from_str(channel.channel_type.name())));
        fields.push((String::from_str("channel"), channel.channel.clone()));
        fields.push((String::from_str("extra_args"), channel.extra_args.clone()));
        fields.push((String::from_str("duration"), String::from_str("-")));
        proof {
            assert(fields_view(fields@) =~= spec_receiver_fields(*channel));
        }
        match render_template(self.command.as_str(), &fields) {
            Some(s) => Ok(s),
            None => Err(Error::InvalidFilter),
        }
    }

    /// Activates the tuner on a channel: renders the receiver command,
    /// splits the whole pipeline into shell words, and installs the fresh
    /// session under the given session number. Fails with `InvalidFilter`
    /// exactly when the receiver template has no reading, and with
    /// `CommandFailed(UnableToParse)` exactly when it renders but some
    /// pipeline command has no shell-word reading.
    pub fn activate(&mut self, channel: Channel, filters: Vec<String>, session_number: u32) -> (r:
        Result<(), Error>)
        requires
            old(self).activity is Inactive,
        ensures
            final(self).index == old(self).index,
            final(self).name == old(self).name,
            final(self).channel_types == old(self).channel_types,
            final(self).command == old(self).command,
            final(self).time_limit == old(self).time_limit,
            final(self).decoded == old(self).decoded,
            final(self).dedicated_for == old(self).dedicated_for,
            match r {
                Ok(_) => {
                    &&& spec_receiver_command(*old(self), channel) is Some
                    &&& final(self).activity matches TunerActivity::Active(sess)
                        && session_fresh(
                        sess,
                        old(self).index as int,
                        session_number,
                        channel,
                        spec_receiver_command(*old(self), channel).unwrap(),
                        filters@.map_values(|f: String| f@),
                    )
                    &&& final(self).wf()
                },
                Err(e) => {
                    &&& final(self).activity is Inactive
                    &&& (e == Error::InvalidFilter <==> spec_receiver_command(*old(self), channel)
                        is None)
                    &&& (e == Error::CommandFailed(crate::errors::CommandError::UnableToParse)
                        <==> (spec_receiver_command(*old(self), channel) matches Some(cmd)
                        && !pipeline_parses(seq![cmd] + filters@.map_values(|f: String| f@))))
                    &&& (e == Error::InvalidFilter || e == Error::CommandFailed(
                        crate::errors::CommandError::UnableToParse,
                    ))
                },
            },
    {
        let command = match self.make_command(&channel) {
            Ok(c) => c,
            Err(e) => return Err(e),
        };
        let mut commands: Vec<String> = Vec::new();
        commands.push(command.clone());
        let mut t: usize = 0;
        while t < filters.len()
            invariant
                0 <= t <= filters@.len(),
                commands@.len() == t + 1,
                commands@[0] == command,
                forall|i: int| 0 <= i < t ==> commands@[i + 1] == filters@[i],
            decreases filters@.len() - t,
        {
            commands.push(filters[t].clone());
            t += 1;
        }
        let ghost cmds_view = commands@.map_values(|f: String| f@);
        proof {
            assert(cmds_view =~= seq![command@] + filters@.map_values(|f: String| f@));
        }
        let mut pipeline_words: Vec<Vec<String>> = Vec::new();
        let mut k: usize = 0;
        while k < commands.len()
            invariant
                *self == *old(self),
                old(self).activity is Inactive,
                spec_receiver_command(*old(self), channel) == Some(command@),
                cmds_view == seq![command@] + filters@.map_values(|f: String| f@),
                0 <= k <= commands@.len(),
                cmds_view == commands@.map_values(|f: String| f@),
                pipeline_words@.len() == k,
                forall|i: int|
                    0 <= i < k ==> spec_shell_words(cmds_view[i]) == Some(
                        (#[trigger] pipeline_words@[i])@.map_values(|w: String| w@),
                    ),
            decreases commands@.len() - k,
        {
            match split_shell_words(commands[k].as_str()) {
                Ok(words) => {
                    pipeline_words.push(words);
                }
                Err(e) => {
                    proof {
                        assert(spec_shell_words(cmds_view[k as int]) is None);
                        assert_by_contradiction!(!pipeline_parses(cmds_view), {
                            assert(spec_shell_words(cmds_view[k as int]) is Some);
                        });
                    }
                    return Err(e);
                }
            }
            k += 1;
        }
        proof {
            assert(pipeline_parses(cmds_view)) by {
                assert forall|i: int| 0 <= i < cmds_view.len() implies #[trigger] spec_shell_words(
                    cmds_view[i],
                ) is Some by {
                    assert(spec_shell_words(cmds_view[i]) == Some(
                        pipeline_words@[i]@.map_values(|w: String| w@),
                    ));
                }
            }
        }
        self.activity = TunerActivity::Active(
            TunerSession {
                id: TunerSessionId { tuner_index: self.index, session_number },
                channel,
                command,
                commands,
                pipeline_words,
                pids: Vec::new(),
                subscribers: Vec::new(),
                next_serial_number: 1,
            },
        );
        Ok(())
    }
}

/// What a successful admission hands back: the subscription identity and
/// whether the tuner's stream already comes decoded.
pub struct TunerSubscription {
    pub id: TunerSubscriptionId,
    pub decoded: bool,
}

impl Tuner {
    /// Registers a user on the active session. Returns nothing when the
    /// session has handed out every serial it has.
    pub fn subscribe(&mut self, user: TunerUser) -> (r: Option<TunerSubscription>)
        requires
            old(self).wf(),
            old(self).spec_is_active(),
        ensures
            final(self).wf(),
            final(self).index == old(self).index,
            final(self).name == old(self).name,
            final(self).channel_types == old(self).channel_types,
            final(self).command == old(self).command,
            final(self).time_limit == old(self).time_limit,
            final(self).decoded == old(self).decoded,
            final(self).dedicated_for == old(self).dedicated_for,
            final(self).spec_is_active(),
            match r {
                Some(sub) => {
                    &&& sub.decoded == old(self).decoded
                    &&& match (old(self).activity, final(self).activity) {
                        (TunerActivity::Active(os), TunerActivity::Active(ns)) => {
                            &&& os.next_serial_number < u32::MAX
                            &&& sub.id.session_id == os.id
                            &&& sub.id.serial_number == os.next_serial_number
                            &&& ns.id == os.id
                            &&& ns.channel == os.channel
                            &&& ns.subscribers@ == os.subscribers@.push(
                                (Subscriber {
                                    serial_number: os.next_serial_number,
                                    user,
                                }),
                            )
                            &&& ns.next_serial_number == os.next_serial_number + 1
                        },
                        _ => false,
                    }
                },
                None => {
                    &&& final(self).activity == old(self).activity
                    &&& match old(self).activity {
                        TunerActivity::Active(os) => os.next_serial_number == u32::MAX,
                        _ => false,
                    }
                },
            },
    {
        let decoded = self.decoded;
        match &mut self.activity {
            TunerActivity::Inactive => None,
            TunerActivity::Active(sess) => match sess.subscribe(user) {
                Some(id) => Some(TunerSubscription { id, decoded }),
                None => None,
            },
        }
    }

    /// Removes the subscriber the id names from the active session; with
    /// no subscriber left, the tuner deactivates itself. An id naming no
    /// live session fails with `SessionNotFound`.
    pub fn stop_streaming(&mut self, id: TunerSubscriptionId) -> (r: Result<(), Error>)
        requires
            old(self).wf(),
        ensures
            final(self).wf(),
            final(self).index == old(self).index,
            final(self).name == old(self).name,
            final(self).dedicated_for == old(self).dedicated_for,
            match r {
                Ok(_) => match old(self).activity {
                    TunerActivity::Active(os) => {
                        &&& os.id == id.session_id
                        &&& ({
                            let remaining = match spec_find_serial(
                                os.subscribers@,
                                id.serial_number,
                            ) {
                                Some(j) => os.subscribers@.remove(j),
                                None => os.subscribers@,
                            };
                            if remaining.len() == 0 {
                                final(self).activity is Inactive
                            } else {
                                final(self).activity matches TunerActivity::Active(ns)
                                    && ns.subscribers@ == remaining && ns.id == os.id
                            }
                        })
                    },
                    _ => false,
                },
                Err(e) => {
                    &&& e == Error::SessionNotFound
                    &&& final(self).activity == old(self).activity
                    &&& match old(self).activity {
                        TunerActivity::Inactive => true,
                        TunerActivity::Active(os) => os.id != id.session_id,
                    }
                },
            },
    {
        let res: Result<usize, Error> = match &mut self.activity {
            TunerActivity::Inactive => Err(Error::SessionNotFound),
            TunerActivity::Active(sess) => sess.stop_streaming(id),
        };
        match res {
            Err(e) => Err(e),
            Ok(n) => {
                if n == 0 {
                    self.deactivate();
                }
                Ok(())
            },
        }
    }
}

/// How a reported tuner model reflects a tuner: its identity, its session
/// command and first pid, and one entry per subscriber.
pub open spec fn is_model_of(m: crate::models::MirakurunTuner, t: Tuner) -> bool {
    &&& m.index == t.index
    &&& m.name@ == t.name@
    &&& m.channel_types@ == t.channel_types@
    &&& (match t.activity {
        TunerActivity::Inactive => m.command is None && m.pid is None && m.users@.len() == 0,
        TunerActivity::Active(s) => {
            &&& m.command matches Some(c) && c@ == s.command@
            &&& m.pid == (if s.pids@.len() > 0 {
                Some(s.pids@[0])
            } else {
                None::<u32>
            })
            &&& m.users@.len() == s.subscribers@.len()
            &&& forall|k: int|
                0 <= k < s.subscribers@.len() ==> (#[trigger] m.users@[k]).id@
                    == crate::models::user_label_of(s.subscribers@[k].user.info)
                    && m.users@[k].priority == s.subscribers@[k].user.priority.value
        },
    })
    &&& m.is_available == true
    &&& m.is_remote == false
    &&& m.is_free == !t.spec_is_active()
    &&& m.is_using == t.spec_is_active()
    &&& m.is_fault == false
}

impl Tuner {
    /// The tuner as the Mirakurun-compatible API reports it.
    pub fn get_mirakurun_model(&self) -> (r: crate::models::MirakurunTuner)
        ensures
            is_model_of(r, *self),
    {
        let is_free = self.is_available();
        let (command, pid, users) = match &self.activity {
            TunerActivity::Inactive => (Option::None, Option::None, Vec::new()),
            TunerActivity::Active(s) => {
                let mut users: Vec<crate::models::MirakurunTunerUser> = Vec::new();
                let mut k: usize = 0;
                while k < s.subscribers.len()
                    invariant
                        0 <= k <= s.subscribers@.len(),
                        users@.len() == k,
                        forall|j: int|
                            0 <= j < k ==> (#[trigger] users@[j]).id@
                                == crate::models::user_label_of(s.subscribers@[j].user.info)
                                && users@[j].priority == s.subscribers@[j].user.priority.value,
                    decreases s.subscribers@.len() - k,
                {
                    users.push(s.subscribers[k].user.get_mirakurun_model());
                    k += 1;
                }
                let pid = if s.pids.len() > 0 {
                    Option::Some(s.pids[0])
                } else {
                    Option::None
                };
                (Option::Some(s.command.clone()), pid, users)
            },
        };
        crate::models::MirakurunTuner {
            index: self.index,
            name: self.name.clone(),
            channel_types: clone_channel_types(&self.channel_types),
            command,
            pid,
            users,
            is_available: true,
            is_remote: false,
            is_free,
            is_using: !is_free,
            is_fault: false,
        }
    }
}

/// Every command of the pipeline splits into shell words.
pub open spec fn pipeline_parses(commands: Seq<Seq<char>>) -> bool {
    forall|i: int| 0 <= i < commands.len() ==> #[trigger] spec_shell_words(commands[i]) is Some
}

/// What a session looks like right after activation.
pub open spec fn session_fresh(
    sess: TunerSession,
    tuner_index: int,
    session_number: u32,
    channel: Channel,
    cmd: Seq<char>,
    filters: Seq<Seq<char>>,
) -> bool {
    &&& sess.id.tuner_index == tuner_index
    &&& sess.id.session_number == session_number
    &&& sess.channel == channel
    &&& sess.command@ == cmd
    &&& sess.commands@.map_values(|s: String| s@) == seq![cmd] + filters
    &&& sess.pipeline_words@.len() == sess.commands@.len()
    &&& forall|i: int|
        0 <= i < sess.commands@.len() ==> spec_shell_words(sess.commands@[i]@) == Some(
            (#[trigger] sess.pipeline_words@[i])@.map_values(|w: String| w@),
        )
    &&& sess.pids@ == Seq::<u32>::empty()
    &&& sess.subscribers@ == Seq::<Subscriber>::empty()
    &&& sess.next_serial_number == 1
}

/// Clones a list of channel types.
fn clone_channel_types(v: &Vec<ChannelType>) -> (r: Vec<ChannelType>)
    ensures
        r@ == v@,
{
    let mut out: Vec<ChannelType> = Vec::new();
    let mut k: usize = 0;
    while k < v.len()
        invariant
            0 <= k <= v@.len(),
            out@ == v@.subrange(0, k as int),
        decreases v@.len() - k,
    {
        out.push(v[k]);
        proof {
            assert(out@ =~= v@.subrange(0, k + 1 as int));
        }
        k += 1;
    }
    proof {
        assert(out@ =~= v@);
    }
    out
}

/// A tuner is active exactly when its activity carries a session, and that
/// session is unique: the activity of an active tuner determines it.
pub proof fn lemma_active_iff_session(t: Tuner)
    ensures
        t.spec_is_active() <==> exists|s: TunerSession| t.activity == TunerActivity::Active(s),
        forall|s1: TunerSession, s2: TunerSession|
            t.activity == TunerActivity::Active(s1) && t.activity == TunerActivity::Active(s2)
                ==> s1 == s2,
{
    if t.spec_is_active() {
        let s = t.activity->Active_0;
        assert(t.activity == TunerActivity::Active(s));
    }
}

/// Within one session, subscriber serials are strictly increasing in
/// registration order, hence pairwise distinct, and every serial is below
/// the next one to be handed out.
pub proof fn lemma_serials_strictly_increasing(sess: TunerSession)
    requires
        sess.wf(),
    ensures
        forall|i: int, j: int|
            0 <= i < j < sess.subscribers@.len() ==> serials_of(sess.subscribers@)[i] < serials_of(
                sess.subscribers@,
            )[j],
        forall|i: int, j: int|
            0 <= i < sess.subscribers@.len() && 0 <= j < sess.subscribers@.len() && i != j
                ==> serials_of(sess.subscribers@)[i] != serials_of(sess.subscribers@)[j],
        forall|i: int|
            0 <= i < sess.subscribers@.len() ==> serials_of(sess.subscribers@)[i]
                < sess.next_serial_number,
{
    assert forall|i: int, j: int|
        0 <= i < j < sess.subscribers@.len() implies serials_of(sess.subscribers@)[i] < serials_of(
        sess.subscribers@,
    )[j] by {
        assert(sess.subscribers@[i].serial_number < sess.subscribers@[j].serial_number);
    }
    assert forall|i: int, j: int|
        0 <= i < sess.subscribers@.len() && 0 <= j < sess.subscribers@.len() && i
            != j implies serials_of(sess.subscribers@)[i] != serials_of(sess.subscribers@)[j] by {
        if i < j {
            assert(sess.subscribers@[i].serial_number < sess.subscribers@[j].serial_number);
        } else {
            assert(sess.subscribers@[j].serial_number < sess.subscribers@[i].serial_number);
        }
    }
}

} // verus!
