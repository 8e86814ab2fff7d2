//! The tuner pool and its admission policy.
//!
//! A streaming request is admitted by the first rule that fits: a tracker
//! user joins the session its stream id points at; a user with a dedicated
//! tuner uses it; an active session on the requested channel is shared; an
//! idle tuner of the right type is activated; a tuner whose subscribers all
//! rank strictly below the request is grabbed; otherwise the request fails
//! with `TunerUnavailable`.

use vstd::prelude::*;

use crate::decimal::dec_of;
use crate::decimal::usize_to_string;
use crate::errors::Error;
use crate::models::Channel;
use crate::models::TunerSubscriptionId;
use crate::models::TunerUser;
use crate::models::TunerUserInfo;
use crate::models::TunerUserPriority;
use crate::template::fields_view;
use crate::template::template_safe;
use crate::template::render_of;
use crate::template::render_template;
use crate::tuner::pipeline_parses;
use crate::tuner::session_fresh;
use crate::tuner::spec_find_serial;
use crate::tuner::spec_receiver_command;
use crate::tuner::Subscriber;
use crate::tuner::Tuner;
use crate::tuner::TunerActivity;
use crate::tuner::TunerConfig;
use crate::tuner::TunerSession;

verus! {

pub use crate::tuner::TunerSubscription;

/// The pool of tuners, the monotonic session counter, and the template of
/// the tuner filter that is put behind every receiver command.
pub struct TunerManager {
    pub tuners: Vec<Tuner>,
    pub session_seq: u32,
    pub tuner_filter: String,
}

// ---------------------------------------------------------------------------
// first-match search

/// First index whose tuner satisfies `p`, if any.
pub open spec fn first_index(ts: Seq<Tuner>, p: spec_fn(Tuner) -> bool) -> Option<int>
    decreases ts.len(),
{
    if ts.len() == 0 {
        None
    } else if p(ts[0]) {
        Some(0)
    } else {
        match first_index(ts.drop_first(), p) {
            Some(i) => Some(i + 1),
            None => None,
        }
    }
}

/// What `first_index` finding an index means.
pub proof fn lemma_first_index_props(ts: Seq<Tuner>, p: spec_fn(Tuner) -> bool)
    ensures
        match first_index(ts, p) {
            Some(i) => 0 <= i < ts.len() && p(ts[i]) && forall|j: int| 0 <= j < i ==> !p(ts[j]),
            None => forall|j: int| 0 <= j < ts.len() ==> !p(ts[j]),
        },
    decreases ts.len(),
{
    if ts.len() > 0 && !p(ts[0]) {
        lemma_first_index_props(ts.drop_first(), p);
        assert forall|j: int| 1 <= j < ts.len() implies ts.drop_first()[j - 1] == ts[j] by {}
    }
}

/// A position that matches, with none before it, is the first.
pub proof fn lemma_first_index_is(ts: Seq<Tuner>, p: spec_fn(Tuner) -> bool, k: int)
    requires
        0 <= k < ts.len(),
        p(ts[k]),
        forall|j: int| 0 <= j < k ==> !p(ts[j]),
    ensures
        first_index(ts, p) == Some(k),
    decreases ts.len(),
{
    if k > 0 {
        lemma_first_index_is(ts.drop_first(), p, k - 1);
    }
}

/// With no matching position, nothing is found.
pub proof fn lemma_first_index_none(ts: Seq<Tuner>, p: spec_fn(Tuner) -> bool)
    requires
        forall|j: int| 0 <= j < ts.len() ==> !p(ts[j]),
    ensures
        first_index(ts, p) is None,
    decreases ts.len(),
{
    if ts.len() > 0 {
        lemma_first_index_none(ts.drop_first(), p);
    }
}

/// The predicate of admission rule 2: the tuner is dedicated to this user.
pub open spec fn dedicated_pred(user: TunerUser) -> spec_fn(Tuner) -> bool {
    |t: Tuner| t.spec_is_dedicated_for(user)
}

/// The predicate of admission rule 3: not dedicated, active on the same
/// channel.
pub open spec fn reuse_pred(channel: Channel) -> spec_fn(Tuner) -> bool {
    |t: Tuner| t.dedicated_for is None && t.spec_is_reuseable(channel)
}

/// The predicate of admission rule 4: not dedicated, idle, right type.
pub open spec fn available_pred(channel: Channel) -> spec_fn(Tuner) -> bool {
    |t: Tuner| t.dedicated_for is None && !t.spec_is_active() && t.spec_supports(
        channel.channel_type,
    )
}

/// The predicate of admission rule 5: not dedicated, right type, and every
/// subscriber can be evicted by this priority.
pub open spec fn grab_pred(channel: Channel, priority: TunerUserPriority) -> spec_fn(Tuner) -> bool {
    |t: Tuner| t.dedicated_for is None && t.spec_supports(channel.channel_type) && t.spec_can_grab(
        priority,
    )
}

// ---------------------------------------------------------------------------
// the admission decision

/// Which rule admits the request, and on which tuner.
pub enum Admission {
    /// Rule 1: a tracker joins the session its stream id points at.
    Join { tuner: int },
    /// Rule 2: the user's dedicated tuner, activated if idle.
    Dedicated { tuner: int },
    /// Rule 3: an active session on the requested channel is shared.
    Reuse { tuner: int },
    /// Rule 4: an idle tuner of the right type is activated.
    Fresh { tuner: int },
    /// Rule 5: a lower-priority session is torn down and replaced.
    Grab { tuner: int },
    /// Rule 6: nothing fits.
    Reject,
}

/// The admission policy, rule by rule, first match wins.
pub open spec fn spec_admission(ts: Seq<Tuner>, channel: Channel, user: TunerUser) -> Admission {
    match user.info {
        TunerUserInfo::Tracker { stream_id } => {
            let i = stream_id.session_id.tuner_index as int;
            if 0 <= i < ts.len() && ts[i].spec_is_active() {
                Admission::Join { tuner: i }
            } else {
                Admission::Reject
            }
        },
        _ => {
            match first_index(ts, dedicated_pred(user)) {
                Some(i) => Admission::Dedicated { tuner: i },
                None => match first_index(ts, reuse_pred(channel)) {
                    Some(i) => Admission::Reuse { tuner: i },
                    None => match first_index(ts, available_pred(channel)) {
                        Some(i) => Admission::Fresh { tuner: i },
                        None => match first_index(ts, grab_pred(channel, user.priority)) {
                            Some(i) => Admission::Grab { tuner: i },
                            None => Admission::Reject,
                        },
                    },
                },
            }
        },
    }
}

// ---------------------------------------------------------------------------
// what each outcome does to the pool

/// Everything of a tuner but its activity is unchanged.
pub open spec fn tuner_frame_eq(nt: Tuner, t: Tuner) -> bool {
    &&& nt.index == t.index
    &&& nt.name == t.name
    &&& nt.channel_types == t.channel_types
    &&& nt.command == t.command
    &&& nt.time_limit == t.time_limit
    &&& nt.decoded == t.decoded
    &&& nt.dedicated_for == t.dedicated_for
}

/// Everything of a session but its subscribers is unchanged.
pub open spec fn session_frame_eq(ns: TunerSession, os: TunerSession) -> bool {
    &&& ns.id == os.id
    &&& ns.channel == os.channel
    &&& ns.command == os.command
    &&& ns.commands == os.commands
    &&& ns.pipeline_words == os.pipeline_words
    &&& ns.pids == os.pids
}

/// Nothing observable changed.
pub open spec fn manager_unchanged(m0: TunerManager, m1: TunerManager) -> bool {
    &&& m1.tuners@ == m0.tuners@
    &&& m1.session_seq == m0.session_seq
    &&& m1.tuner_filter == m0.tuner_filter
}

/// Only tuner `i` changed; the counter may move.
pub open spec fn manager_same_except(m0: TunerManager, m1: TunerManager, i: int) -> bool {
    &&& m1.tuners@.len() == m0.tuners@.len()
    &&& forall|j: int| 0 <= j < m0.tuners@.len() && j != i ==> m1.tuners@[j] == m0.tuners@[j]
    &&& m1.tuner_filter == m0.tuner_filter
}

/// The tuner's session has run out of serial numbers.
pub open spec fn serial_exhausted(t: Tuner) -> bool {
    match t.activity {
        TunerActivity::Active(s) => s.next_serial_number == u32::MAX,
        TunerActivity::Inactive => false,
    }
}

/// The new tuner is the old one with `user` subscribed to its session, and
/// `sub` names that subscription.
pub open spec fn subscribed_tuner(
    nt: Tuner,
    t: Tuner,
    user: TunerUser,
    sub: TunerSubscription,
) -> bool {
    match (t.activity, nt.activity) {
        (TunerActivity::Active(os), TunerActivity::Active(ns)) => {
            &&& tuner_frame_eq(nt, t)
            &&& session_frame_eq(ns, os)
            &&& os.next_serial_number < u32::MAX
            &&& ns.subscribers@ == os.subscribers@.push(
                (Subscriber { serial_number: os.next_serial_number, user }),
            )
            &&& ns.next_serial_number == os.next_serial_number + 1
            &&& sub.id.session_id == os.id
            &&& sub.id.serial_number == os.next_serial_number
            &&& sub.decoded == t.decoded
        },
        _ => false,
    }
}

/// The new tuner is the old one with its session dropped.
pub open spec fn deactivated_tuner(nt: Tuner, t: Tuner) -> bool {
    tuner_frame_eq(nt, t) && nt.activity is Inactive
}

/// The fields a tuner filter template is rendered over.
pub open spec fn spec_filter_fields(t: Tuner, channel: Channel) -> Seq<(Seq<char>, Seq<char>)> {
    seq![
        ("tuner_index"@, dec_of(t.index as nat)),
        ("tuner_name"@, t.name@),
        ("channel_name"@, channel.name@),
        ("channel_type"@, channel.channel_type.spec_name()),
        ("channel"@, channel.channel@),
    ]
}

/// The Unicode white-space characters, as `str::trim` reads them.
pub open spec fn is_ws_char(c: char) -> bool {
    ||| c == ' '
    ||| ('\u{0009}' <= c && c <= '\u{000d}')
    ||| c == '\u{0085}'
    ||| c == '\u{00a0}'
    ||| c == '\u{1680}'
    ||| ('\u{2000}' <= c && c <= '\u{200a}')
    ||| c == '\u{2028}'
    ||| c == '\u{2029}'
    ||| c == '\u{202f}'
    ||| c == '\u{205f}'
    ||| c == '\u{3000}'
}

/// Nothing but white space.
pub open spec fn is_blank(s: Seq<char>) -> bool {
    forall|i: int| 0 <= i < s.len() ==> is_ws_char(#[trigger] s[i])
}

/// The filter commands put behind the receiver: the rendered tuner filter,
/// or none at all when it renders to whitespace.
pub open spec fn spec_tuner_filters(t: Tuner, channel: Channel, tuner_filter: Seq<char>) -> Option<
    Seq<Seq<char>>,
> {
    if template_safe(tuner_filter) {
        match render_of(tuner_filter, spec_filter_fields(t, channel)) {
            Some(s) => if is_blank(s) {
                Some(Seq::empty())
            } else {
                Some(seq![s])
            },
            None => None,
        }
    } else {
        None
    }
}

/// Why activating tuner `t` on `channel` would fail, if it would: a filter
/// or receiver template that does not render, or a pipeline command with no
/// shell-word reading.
pub open spec fn spec_activation_error(t: Tuner, channel: Channel, tuner_filter: Seq<char>) -> Option<
    Error,
> {
    match spec_tuner_filters(t, channel, tuner_filter) {
        None => Some(Error::InvalidFilter),
        Some(filters) => match spec_receiver_command(t, channel) {
            None => Some(Error::InvalidFilter),
            Some(cmd) => if pipeline_parses(seq![cmd] + filters) {
                None
            } else {
                Some(Error::CommandFailed(crate::errors::CommandError::UnableToParse))
            },
        },
    }
}

/// The new tuner carries a fresh session for `channel` under
/// `session_number`, with `user` as its only subscriber, named by `sub`.
pub open spec fn activated_subscribed_tuner(
    nt: Tuner,
    t: Tuner,
    channel: Channel,
    session_number: u32,
    tuner_filter: Seq<char>,
    user: TunerUser,
    sub: TunerSubscription,
) -> bool {
    match nt.activity {
        TunerActivity::Active(ns) => {
            &&& tuner_frame_eq(nt, t)
            &&& spec_tuner_filters(t, channel, tuner_filter) is Some
            &&& spec_receiver_command(t, channel) is Some
            &&& ns.id.tuner_index == t.index
            &&& ns.id.session_number == session_number
            &&& ns.channel == channel
            &&& ns.command@ == spec_receiver_command(t, channel).unwrap()
            &&& ns.commands@.map_values(|s: String| s@) == seq![
                spec_receiver_command(t, channel).unwrap(),
            ] + spec_tuner_filters(t, channel, tuner_filter).unwrap()
            &&& ns.subscribers@ == seq![Subscriber { serial_number: 1u32, user }]
            &&& ns.next_serial_number == 2
            &&& sub.id.session_id == ns.id
            &&& sub.id.serial_number == 1
            &&& sub.decoded == t.decoded
        },
        _ => false,
    }
}

/// What joining an existing session leaves behind.
pub open spec fn join_post(
    m0: TunerManager,
    m1: TunerManager,
    user: TunerUser,
    r: Result<TunerSubscription, Error>,
    i: int,
) -> bool {
    match r {
        Ok(sub) => {
            &&& manager_same_except(m0, m1, i)
            &&& m1.session_seq == m0.session_seq
            &&& subscribed_tuner(m1.tuners@[i], m0.tuners@[i], user, sub)
        },
        Err(e) => {
            &&& e == Error::TunerUnavailable
            &&& manager_unchanged(m0, m1)
            &&& serial_exhausted(m0.tuners@[i])
        },
    }
}

/// What activating tuner `i` and subscribing to it leaves behind. When the
/// tuner was grabbed, a failed activation still leaves it deactivated.
pub open spec fn activate_post(
    m0: TunerManager,
    m1: TunerManager,
    channel: Channel,
    user: TunerUser,
    r: Result<TunerSubscription, Error>,
    i: int,
    grabbed: bool,
) -> bool {
    match r {
        Ok(sub) => {
            &&& m0.session_seq < u32::MAX
            &&& spec_activation_error(m0.tuners@[i], channel, m0.tuner_filter@) is None
            &&& manager_same_except(m0, m1, i)
            &&& m1.session_seq == m0.session_seq + 1
            &&& activated_subscribed_tuner(
                m1.tuners@[i],
                m0.tuners@[i],
                channel,
                m0.session_seq,
                m0.tuner_filter@,
                user,
                sub,
            )
        },
        Err(e) => {
            &&& m1.session_seq == m0.session_seq
            &&& (if m0.session_seq == u32::MAX {
                e == Error::TunerUnavailable
            } else {
                spec_activation_error(m0.tuners@[i], channel, m0.tuner_filter@) == Some(e)
            })
            &&& (if grabbed {
                manager_same_except(m0, m1, i) && deactivated_tuner(m1.tuners@[i], m0.tuners@[i])
            } else {
                manager_unchanged(m0, m1)
            })
        },
    }
}

/// The whole contract of `TunerManager::start_streaming`, case by case
/// over the admission decision.
pub open spec fn start_streaming_post(
    m0: TunerManager,
    m1: TunerManager,
    channel: Channel,
    user: TunerUser,
    r: Result<TunerSubscription, Error>,
) -> bool {
    let ts = m0.tuners@;
    match spec_admission(ts, channel, user) {
        Admission::Reject => r matches Err(e) && e == Error::TunerUnavailable && manager_unchanged(
            m0,
            m1,
        ),
        Admission::Join { tuner: i } => join_post(m0, m1, user, r, i),
        Admission::Dedicated { tuner: i } => if ts[i].spec_is_active() {
            join_post(m0, m1, user, r, i)
        } else {
            activate_post(m0, m1, channel, user, r, i, false)
        },
        Admission::Reuse { tuner: i } => join_post(m0, m1, user, r, i),
        Admission::Fresh { tuner: i } => activate_post(m0, m1, channel, user, r, i, false),
        Admission::Grab { tuner: i } => activate_post(m0, m1, channel, user, r, i, true),
    }
}

// ---------------------------------------------------------------------------
// the manager

impl TunerManager {
    /// The pool's standing invariant: every tuner is well formed and sits
    /// at the index it carries, and every active session's number lies
    /// below the counter — a fresh activation can never repeat a live
    /// session's identity.
    pub open spec fn wf(self) -> bool {
        forall|i: int|
            0 <= i < self.tuners@.len() ==> (#[trigger] self.tuners@[i]).wf()
                && self.tuners@[i].index == i && (match self.tuners@[i].activity {
                TunerActivity::Active(s) => s.id.session_number < self.session_seq,
                TunerActivity::Inactive => true,
            })
    }

    /// Loads the pool from configuration: disabled tuners are dropped, the
    /// rest are numbered in order; a `dedicated_for` name that names a
    /// configured on-air program tracker dedicates the tuner to it.
    pub fn new(configs: &Vec<TunerConfig>, tracker_names: &Vec<String>, tuner_filter: String) -> (r:
        TunerManager)
        ensures
            r.wf(),
            r.session_seq == 0,
            r.tuner_filter == tuner_filter,
            ({
                let enabled = configs@.filter(|c: TunerConfig| !c.disabled);
                &&& r.tuners@.len() == enabled.len()
                &&& forall|k: int|
                    0 <= k < enabled.len() ==> tuner_matches_config(
                        #[trigger] r.tuners@[k],
                        enabled[k],
                        k,
                        tracker_names@,
                    )
            }),
    {
        let ghost enabled = configs@.filter(|c: TunerConfig| !c.disabled);
        let mut tuners: Vec<Tuner> = Vec::new();
        proof {
            reveal_with_fuel(Seq::<TunerConfig>::filter, 2);
            assert(configs@.subrange(0, 0).filter(|c: TunerConfig| !c.disabled).len() == 0);
        }
        let mut k: usize = 0;
        while k < configs.len()
            invariant
                0 <= k <= configs@.len(),
                enabled == configs@.filter(|c: TunerConfig| !c.disabled),
                tuners@.len() == configs@.subrange(0, k as int).filter(
                    |c: TunerConfig| !c.disabled,
                ).len(),
                tuners@.len() <= k,
                forall|j: int|
                    0 <= j < tuners@.len() ==> tuner_matches_config(
                        #[trigger] tuners@[j],
                        configs@.subrange(0, k as int).filter(|c: TunerConfig| !c.disabled)[j],
                        j,
                        tracker_names@,
                    ),
            decreases configs@.len() - k,
        {
            let ghost pre = configs@.subrange(0, k as int).filter(|c: TunerConfig| !c.disabled);
            proof {
                reveal_with_fuel(Seq::<TunerConfig>::filter, 2);
                assert(configs@.subrange(0, k + 1 as int).drop_last() =~= configs@.subrange(
                    0,
                    k as int,
                ));
                assert(configs@.subrange(0, k + 1 as int).last() == configs@[k as int]);
            }
            let config = &configs[k];
            if !config.disabled {
                let dedicated_for = resolve_dedication(config, tracker_names);
                let index = tuners.len();
                let tuner = Tuner::new(index, config, dedicated_for);
                tuners.push(tuner);
                proof {
                    assert(configs@.subrange(0, k + 1 as int).filter(
                        |c: TunerConfig| !c.disabled,
                    ) =~= pre.push(configs@[k as int]));
                }
            } else {
                proof {
                    assert(configs@.subrange(0, k + 1 as int).filter(|c: TunerConfig| !c.disabled)
                        =~= pre);
                }
            }
            k += 1;
        }
        proof {
            assert(configs@.subrange(0, configs@.len() as int) =~= configs@);
        }
        TunerManager { tuners, session_seq: 0, tuner_filter }
    }
}

/// How a loaded tuner reflects its configuration entry.
pub open spec fn tuner_matches_config(
    t: Tuner,
    c: TunerConfig,
    index: int,
    tracker_names: Seq<String>,
) -> bool {
    &&& t.index == index
    &&& t.name@ == c.name@
    &&& t.channel_types@ == c.channel_types@
    &&& t.command@ == c.command@
    &&& t.time_limit == c.time_limit
    &&& t.decoded == c.decoded
    &&& t.activity is Inactive
    &&& match c.dedicated_for {
        Some(name) => {
            if exists|j: int| 0 <= j < tracker_names.len() && tracker_names[j]@ == name@ {
                t.dedicated_for matches Some(d) && d matches TunerUserInfo::OnairProgramTracker {
                    name: n,
                } && n@ == name@
            } else {
                t.dedicated_for is None
            }
        },
        None => t.dedicated_for is None,
    }
}

/// Resolves a tuner's `dedicated_for` name against the configured on-air
/// program trackers.
fn resolve_dedication(config: &TunerConfig, tracker_names: &Vec<String>) -> (r: Option<
    TunerUserInfo,
>)
    ensures
        match config.dedicated_for {
            Some(name) => {
                if exists|j: int|
                    0 <= j < tracker_names@.len() && (#[trigger] tracker_names@[j])@ == name@ {
                    r matches Some(d) && d matches TunerUserInfo::OnairProgramTracker {
                        name: n,
                    } && n@ == name@
                } else {
                    r is None
                }
            },
            None => r is None,
        },
{
    match &config.dedicated_for {
        Option::None => Option::None,
        Option::Some(name) => {
            let mut j: usize = 0;
            while j < tracker_names.len()
                invariant
                    0 <= j <= tracker_names@.len(),
                    config.dedicated_for matches Some(n) && n == name,
                    forall|i: int|
                        0 <= i < j ==> (#[trigger] tracker_names@[i])@ != name@,
                decreases tracker_names@.len() - j,
            {
                if crate::strutil::string_eq(&tracker_names[j], name) {
                    return Option::Some(
                        TunerUserInfo::OnairProgramTracker { name: name.clone() },
                    );
                }
                j += 1;
            }
            Option::None
        },
    }
}

/// The new tuner carries a fresh, unsubscribed session for `channel`.
pub open spec fn activated_tuner(
    nt: Tuner,
    t: Tuner,
    channel: Channel,
    session_number: u32,
    tuner_filter: Seq<char>,
) -> bool {
    match (spec_tuner_filters(t, channel, tuner_filter), spec_receiver_command(t, channel), nt.activity) {
        (Some(filters), Some(cmd), TunerActivity::Active(ns)) => {
            tuner_frame_eq(nt, t) && session_fresh(
                ns,
                t.index as int,
                session_number,
                channel,
                cmd,
                filters,
            )
        },
        _ => false,
    }
}

/// The activation outcome reads only the tuner's configuration, never its
/// activity: tuners equal up to activity activate alike.
pub proof fn lemma_activation_specs_frame(t1: Tuner, t2: Tuner, channel: Channel, tuner_filter: Seq<char>)
    requires
        tuner_frame_eq(t1, t2),
    ensures
        spec_receiver_command(t1, channel) == spec_receiver_command(t2, channel),
        spec_tuner_filters(t1, channel, tuner_filter) == spec_tuner_filters(t2, channel, tuner_filter),
        spec_activation_error(t1, channel, tuner_filter) == spec_activation_error(t2, channel, tuner_filter),
{
    assert(t1.command@ == t2.command@);
    assert(spec_filter_fields(t1, channel) =~= spec_filter_fields(t2, channel));
}

/// Decides `is_ws_char`.
fn is_ws_char_exec(c: char) -> (r: bool)
    ensures
        r == is_ws_char(c),
{
    c == ' ' || ('\u{0009}' <= c && c <= '\u{000d}') || c == '\u{0085}' || c == '\u{00a0}' || c
        == '\u{1680}' || ('\u{2000}' <= c && c <= '\u{200a}') || c == '\u{2028}' || c
        == '\u{2029}' || c == '\u{202f}' || c == '\u{205f}' || c == '\u{3000}'
}

/// Decides `is_blank`.
pub fn string_is_blank(s: &String) -> (r: bool)
    ensures
        r == is_blank(s@),
{
    let st = s.as_str();
    let n = st.unicode_len();
    let mut i: usize = 0;
    while i < n
        invariant
            n == st@.len(),
            st@ == s@,
            0 <= i <= n,
            forall|j: int| 0 <= j < i ==> is_ws_char(#[trigger] s@[j]),
        decreases n - i,
    {
        let c = st.get_char(i);
        if !is_ws_char_exec(c) {
            return false;
        }
        i += 1;
    }
    true
}

/// Renders the tuner filter for this tuner and channel: no command at all
/// when it renders to whitespace, else the one rendered command.
fn make_filter_commands(t: &Tuner, channel: &Channel, tuner_filter: &String) -> (r: Result<
    Vec<String>,
    Error,
>)
    ensures
        match r {
            Ok(v) => spec_tuner_filters(*t, *channel, tuner_filter@) == Some(
                v@.map_values(|f: String| f@),
            ),
            Err(e) => e == Error::InvalidFilter && spec_tuner_filters(*t, *channel, tuner_filter@)
                is None,
        },
{
    let mut fields: Vec<(String, String)> = Vec::new();
    fields.push((String::from_str("tuner_index"), usize_to_string(t.index)));
    fields.push((String::from_str("tuner_name"), t.name.clone()));
    fields.push((String::from_str("channel_name"), channel.name.clone()));
    fields.push((String::from_str("channel_type"), String::from_str(channel.channel_type.name())));
    fields.push((String::from_str("channel"), channel.channel.clone()));
    proof {
        assert(fields_view(fields@) =~= spec_filter_fields(*t, *channel));
    }
    match render_template(tuner_filter.as_str(), &fields) {
        None => Err(Error::InvalidFilter),
        Some(s) => {
            if string_is_blank(&s) {
                let out: Vec<String> = Vec::new();
                proof {
                    assert(out@.map_values(|f: String| f@) =~= Seq::<Seq<char>>::empty());
                }
                Ok(out)
            } else {
                let ghost sv = s@;
                let mut out: Vec<String> = Vec::new();
                out.push(s);
                proof {
                    assert(out@.map_values(|f: String| f@) =~= seq![sv]);
                }
                Ok(out)
            }
        },
    }
}

/// First tuner dedicated to this user, if any.
fn find_dedicated(tuners: &Vec<Tuner>, user: &TunerUser) -> (r: Option<usize>)
    ensures
        match r {
            Some(i) => first_index(tuners@, dedicated_pred(*user)) == Some(i as int),
            None => first_index(tuners@, dedicated_pred(*user)) is None,
        },
{
    let mut k: usize = 0;
    while k < tuners.len()
        invariant
            0 <= k <= tuners@.len(),
            forall|j: int| 0 <= j < k ==> !dedicated_pred(*user)(#[trigger] tuners@[j]),
        decreases tuners@.len() - k,
    {
        if tuners[k].is_dedicated_for(user) {
            proof {
                lemma_first_index_is(tuners@, dedicated_pred(*user), k as int);
            }
            return Some(k);
        }
        k += 1;
    }
    proof {
        lemma_first_index_none(tuners@, dedicated_pred(*user));
    }
    None
}

/// First non-dedicated tuner whose session this channel can share.
fn find_reusable(tuners: &Vec<Tuner>, channel: &Channel) -> (r: Option<usize>)
    ensures
        match r {
            Some(i) => first_index(tuners@, reuse_pred(*channel)) == Some(i as int),
            None => first_index(tuners@, reuse_pred(*channel)) is None,
        },
{
    let mut k: usize = 0;
    while k < tuners.len()
        invariant
            0 <= k <= tuners@.len(),
            forall|j: int| 0 <= j < k ==> !reuse_pred(*channel)(#[trigger] tuners@[j]),
        decreases tuners@.len() - k,
    {
        if tuners[k].dedicated_for.is_none() && tuners[k].is_reuseable(channel) {
            proof {
                lemma_first_index_is(tuners@, reuse_pred(*channel), k as int);
            }
            return Some(k);
        }
        k += 1;
    }
    proof {
        lemma_first_index_none(tuners@, reuse_pred(*channel));
    }
    None
}

/// First non-dedicated idle tuner of the right type.
fn find_available(tuners: &Vec<Tuner>, channel: &Channel) -> (r: Option<usize>)
    ensures
        match r {
            Some(i) => first_index(tuners@, available_pred(*channel)) == Some(i as int),
            None => first_index(tuners@, available_pred(*channel)) is None,
        },
{
    let mut k: usize = 0;
    while k < tuners.len()
        invariant
            0 <= k <= tuners@.len(),
            forall|j: int| 0 <= j < k ==> !available_pred(*channel)(#[trigger] tuners@[j]),
        decreases tuners@.len() - k,
    {
        if tuners[k].dedicated_for.is_none() && tuners[k].is_available_for(channel) {
            proof {
                lemma_first_index_is(tuners@, available_pred(*channel), k as int);
            }
            return Some(k);
        }
        k += 1;
    }
    proof {
        lemma_first_index_none(tuners@, available_pred(*channel));
    }
    None
}

/// First non-dedicated tuner of the right type this priority can grab.
fn find_grabbable(tuners: &Vec<Tuner>, channel: &Channel, priority: TunerUserPriority) -> (r:
    Option<usize>)
    ensures
        match r {
            Some(i) => first_index(tuners@, grab_pred(*channel, priority)) == Some(i as int),
            None => first_index(tuners@, grab_pred(*channel, priority)) is None,
        },
{
    let mut k: usize = 0;
    while k < tuners.len()
        invariant
            0 <= k <= tuners@.len(),
            forall|j: int| 0 <= j < k ==> !grab_pred(*channel, priority)(#[trigger] tuners@[j]),
        decreases tuners@.len() - k,
    {
        if tuners[k].dedicated_for.is_none() && tuners[k].is_supported_type(channel) && tuners[k].can_grab(priority) {
            proof {
                lemma_first_index_is(tuners@, grab_pred(*channel, priority), k as int);
            }
            return Some(k);
        }
        k += 1;
    }
    proof {
        lemma_first_index_none(tuners@, grab_pred(*channel, priority));
    }
    None
}

impl TunerManager {
    /// Subscribes `user` to the active session of tuner `i`.
    fn subscribe_at(&mut self, i: usize, user: TunerUser) -> (r: Result<TunerSubscription, Error>)
        requires
            old(self).wf(),
            i < old(self).tuners@.len(),
            old(self).tuners@[i as int].spec_is_active(),
        ensures
            final(self).wf(),
            final(self).session_seq == old(self).session_seq,
            final(self).tuner_filter == old(self).tuner_filter,
            join_post(*old(self), *final(self), user, r, i as int),
    {
        let decoded = self.tuners[i].decoded;
        let mut t = self.tuners.remove(i);
        let r: Result<TunerSubscription, Error>;
        match &mut t.activity {
            TunerActivity::Inactive => {
                proof {
                    assert(false);
                }
                r = Err(Error::TunerUnavailable);
            },
            TunerActivity::Active(sess) => {
                match sess.subscribe(user) {
                    Some(id) => {
                        r = Ok(TunerSubscription { id, decoded });
                    },
                    None => {
                        r = Err(Error::TunerUnavailable);
                    },
                }
            },
        }
        self.tuners.insert(i, t);
        proof {
            if r is Err {
                assert(self.tuners@ =~= old(self).tuners@);
            } else {
                assert(forall|j: int|
                    0 <= j < old(self).tuners@.len() && j != i ==> self.tuners@[j] == old(
                        self,
                    ).tuners@[j]);
            }
        }
        r
    }

    /// Activates the idle tuner `i` on `channel` under a fresh session
    /// number.
    fn activate_at(&mut self, i: usize, channel: Channel) -> (r: Result<(), Error>)
        requires
            old(self).wf(),
            i < old(self).tuners@.len(),
            !old(self).tuners@[i as int].spec_is_active(),
        ensures
            final(self).wf(),
            final(self).tuner_filter == old(self).tuner_filter,
            match r {
                Ok(_) => {
                    &&& old(self).session_seq < u32::MAX
                    &&& spec_activation_error(
                        old(self).tuners@[i as int],
                        channel,
                        old(self).tuner_filter@,
                    ) is None
                    &&& manager_same_except(*old(self), *final(self), i as int)
                    &&& final(self).session_seq == old(self).session_seq + 1
                    &&& activated_tuner(
                        final(self).tuners@[i as int],
                        old(self).tuners@[i as int],
                        channel,
                        old(self).session_seq,
                        old(self).tuner_filter@,
                    )
                },
                Err(e) => {
                    &&& manager_unchanged(*old(self), *final(self))
                    &&& (if old(self).session_seq == u32::MAX {
                        e == Error::TunerUnavailable
                    } else {
                        spec_activation_error(
                            old(self).tuners@[i as int],
                            channel,
                            old(self).tuner_filter@,
                        ) == Some(e)
                    })
                },
            },
    {
        if self.session_seq == u32::MAX {
            return Err(Error::TunerUnavailable);
        }
        let filters = match make_filter_commands(&self.tuners[i], &channel, &self.tuner_filter) {
            Ok(f) => f,
            Err(e) => return Err(e),
        };
        let session_number = self.session_seq;
        let mut t = self.tuners.remove(i);
        let res = t.activate(channel, filters, session_number);
        self.tuners.insert(i, t);
        match res {
            Ok(_) => {
                self.session_seq = session_number + 1;
                proof {
                    assert(forall|j: int|
                        0 <= j < old(self).tuners@.len() && j != i ==> self.tuners@[j] == old(
                            self,
                        ).tuners@[j]);
                    let t0 = old(self).tuners@[i as int];
                    let filters_s = spec_tuner_filters(
                        t0,
                        channel,
                        old(self).tuner_filter@,
                    ).unwrap();
                    let cmd = spec_receiver_command(t0, channel).unwrap();
                    let sess = self.tuners@[i as int].activity->Active_0;
                    assert(sess.commands@.map_values(|s: String| s@) == seq![cmd] + filters_s);
                    assert forall|k: int|
                        0 <= k < (seq![cmd] + filters_s).len() implies #[trigger] crate::command::spec_shell_words(
                        (seq![cmd] + filters_s)[k],
                    ) is Some by {
                        let w = sess.pipeline_words@[k];
                        assert((seq![cmd] + filters_s)[k] == sess.commands@.map_values(
                            |s: String| s@,
                        )[k]);
                        assert(sess.commands@.map_values(|s: String| s@)[k]
                            == sess.commands@[k]@);
                        assert(crate::command::spec_shell_words(sess.commands@[k]@) is Some);
                    }
                    assert(pipeline_parses(seq![cmd] + filters_s));
                }
                Ok(())
            },
            Err(e) => {
                proof {
                    assert(self.tuners@ =~= old(self).tuners@);
                }
                Err(e)
            },
        }
    }

    /// Admits a streaming request: the first rule that fits decides, as
    /// `spec_admission` says, and `start_streaming_post` pins down the
    /// result and the new state of the pool rule by rule.
    pub fn start_streaming(&mut self, channel: Channel, user: TunerUser) -> (r: Result<
        TunerSubscription,
        Error,
    >)
        requires
            old(self).wf(),
        ensures
            final(self).wf(),
            start_streaming_post(*old(self), *final(self), channel, user, r),
    {
        let ghost ts = old(self).tuners@;

        // Rule 1: a tracker joins the session its stream id points at.
        if let TunerUserInfo::Tracker { stream_id } = &user.info {
            let ti = stream_id.session_id.tuner_index;
            if ti < self.tuners.len() {
                if self.tuners[ti].is_active() {
                    return self.subscribe_at(ti, user);
                }
            }
            return Err(Error::TunerUnavailable);
        }

        // Rule 2: a dedicated tuner, activated if idle.
        if let Some(i) = find_dedicated(&self.tuners, &user) {
            proof {
                lemma_first_index_props(ts, dedicated_pred(user));
            }
            if self.tuners[i].is_active() {
                return self.subscribe_at(i, user);
            }
            match self.activate_at(i, channel) {
                Ok(_) => {},
                Err(e) => return Err(e),
            }
            let r = self.subscribe_at(i, user);
            proof {
                assert(r is Ok);
            }
            return r;
        }

        // Rule 3: share an active session on the same channel.
        if let Some(i) = find_reusable(&self.tuners, &channel) {
            proof {
                lemma_first_index_props(ts, reuse_pred(channel));
            }
            return self.subscribe_at(i, user);
        }

        // Rule 4: activate an idle tuner of the right type.
        if let Some(i) = find_available(&self.tuners, &channel) {
            proof {
                lemma_first_index_props(ts, available_pred(channel));
            }
            match self.activate_at(i, channel) {
                Ok(_) => {},
                Err(e) => return Err(e),
            }
            let r = self.subscribe_at(i, user);
            proof {
                assert(r is Ok);
            }
            return r;
        }

        // Rule 5: grab a tuner from strictly lower-priority users.
        if let Some(i) = find_grabbable(&self.tuners, &channel, user.priority) {
            proof {
                lemma_first_index_props(ts, grab_pred(channel, user.priority));
            }
            let mut t = self.tuners.remove(i);
            t.deactivate();
            self.tuners.insert(i, t);
            let ghost mid = *self;
            proof {
                lemma_activation_specs_frame(
                    mid.tuners@[i as int],
                    old(self).tuners@[i as int],
                    channel,
                    old(self).tuner_filter@,
                );
            }
            match self.activate_at(i, channel) {
                Ok(_) => {},
                Err(e) => return Err(e),
            }
            let r = self.subscribe_at(i, user);
            proof {
                assert(r is Ok);
            }
            return r;
        }

        // Rule 6: nothing fits.
        Err(Error::TunerUnavailable)
    }

    /// What stopping a subscription leaves behind, case by case.
    pub open spec fn stop_streaming_post(
        m0: TunerManager,
        m1: TunerManager,
        id: TunerSubscriptionId,
        r: Result<(), Error>,
    ) -> bool {
        let ti = id.session_id.tuner_index as int;
        if !(0 <= ti < m0.tuners@.len()) {
            r matches Err(e) && e == Error::SessionNotFound && manager_unchanged(m0, m1)
        } else {
            match m0.tuners@[ti].activity {
                TunerActivity::Inactive => r matches Err(e) && e == Error::SessionNotFound
                    && manager_unchanged(m0, m1),
                TunerActivity::Active(os) => {
                    if os.id != id.session_id {
                        r matches Err(e) && e == Error::SessionNotFound && manager_unchanged(
                            m0,
                            m1,
                        )
                    } else {
                        let remaining = match spec_find_serial(os.subscribers@, id.serial_number) {
                            Some(j) => os.subscribers@.remove(j),
                            None => os.subscribers@,
                        };
                        &&& r is Ok
                        &&& manager_same_except(m0, m1, ti)
                        &&& m1.session_seq == m0.session_seq
                        &&& (if remaining.len() == 0 {
                            deactivated_tuner(m1.tuners@[ti], m0.tuners@[ti])
                        } else {
                            m1.tuners@[ti].activity matches TunerActivity::Active(ns)
                                && tuner_frame_eq(m1.tuners@[ti], m0.tuners@[ti])
                                && session_frame_eq(ns, os) && ns.next_serial_number
                                == os.next_serial_number && ns.subscribers@ == remaining
                        })
                    }
                },
            }
        }
    }

    /// Removes the subscription the id names; when its session has no
    /// subscriber left, the tuner is deactivated. An id that names no
    /// live session fails with `SessionNotFound`.
    pub fn stop_streaming(&mut self, id: TunerSubscriptionId) -> (r: Result<(), Error>)
        requires
            old(self).wf(),
        ensures
            final(self).wf(),
            Self::stop_streaming_post(*old(self), *final(self), id, r),
    {
        let ti = id.session_id.tuner_index;
        if ti >= self.tuners.len() {
            return Err(Error::SessionNotFound);
        }
        let mut t = self.tuners.remove(ti);
        let res: Result<usize, Error> = match &mut t.activity {
            TunerActivity::Inactive => Err(Error::SessionNotFound),
            TunerActivity::Active(sess) => sess.stop_streaming(id),
        };
        match res {
            Err(e) => {
                self.tuners.insert(ti, t);
                proof {
                    assert(self.tuners@ =~= old(self).tuners@);
                }
                Err(e)
            },
            Ok(n) => {
                if n == 0 {
                    t.deactivate();
                }
                self.tuners.insert(ti, t);
                proof {
                    assert(forall|j: int|
                        0 <= j < old(self).tuners@.len() && j != ti ==> self.tuners@[j] == old(
                            self,
                        ).tuners@[j]);
                }
                Ok(())
            },
        }
    }
}

// ---------------------------------------------------------------------------
// the messages the manager answers, and the trigger that stops a stream

/// Asks for the Mirakurun-compatible view of every tuner.
pub struct QueryTuners;

/// Asks for a stream of the given channel on behalf of a user.
pub struct StartStreaming {
    pub channel: Channel,
    pub user: TunerUser,
}

/// Tells the manager one subscription is gone.
pub struct StopStreaming {
    pub id: TunerSubscriptionId,
}

/// Owned by the consumer of a stream; consuming it yields the one
/// `StopStreaming` message for its subscription. Being consumed by move,
/// a trigger fires at most once; the runtime fires it exactly once, from
/// the drop of the stream it guards.
pub struct TunerStreamStopTrigger {
    pub id: TunerSubscriptionId,
}

impl TunerStreamStopTrigger {
    pub fn new(id: TunerSubscriptionId) -> (r: Self)
        ensures
            r.id == id,
    {
        TunerStreamStopTrigger { id }
    }

    /// The message to send when the guarded stream is dropped.
    pub fn fire(self) -> (r: StopStreaming)
        ensures
            r.id == self.id,
    {
        StopStreaming { id: self.id }
    }
}

impl TunerManager {
    /// Answers `QueryTuners`: one model per tuner, in pool order.
    pub fn query_tuners(&self, msg: QueryTuners) -> (r: Vec<crate::models::MirakurunTuner>)
        ensures
            r@.len() == self.tuners@.len(),
            forall|i: int|
                0 <= i < self.tuners@.len() ==> crate::tuner::is_model_of(
                    #[trigger] r@[i],
                    self.tuners@[i],
                ),
    {
        let mut out: Vec<crate::models::MirakurunTuner> = Vec::new();
        let mut k: usize = 0;
        while k < self.tuners.len()
            invariant
                0 <= k <= self.tuners@.len(),
                out@.len() == k,
                forall|i: int|
                    0 <= i < k ==> crate::tuner::is_model_of(#[trigger] out@[i], self.tuners@[i]),
            decreases self.tuners@.len() - k,
        {
            out.push(self.tuners[k].get_mirakurun_model());
            k += 1;
        }
        out
    }

    /// Answers `StartStreaming`.
    pub fn handle_start_streaming(&mut self, msg: StartStreaming) -> (r: Result<
        TunerSubscription,
        Error,
    >)
        requires
            old(self).wf(),
        ensures
            final(self).wf(),
            start_streaming_post(*old(self), *final(self), msg.channel, msg.user, r),
    {
        self.start_streaming(msg.channel, msg.user)
    }

    /// Answers `StopStreaming`.
    pub fn handle_stop_streaming(&mut self, msg: StopStreaming) -> (r: Result<(), Error>)
        requires
            old(self).wf(),
        ensures
            final(self).wf(),
            Self::stop_streaming_post(*old(self), *final(self), msg.id, r),
    {
        self.stop_streaming(msg.id)
    }

    /// Records the pids the runtime observed after spawning the pipeline
    /// of the session the id names: that session's pids become the given
    /// vector and nothing else of the pool moves. An id naming no live
    /// session changes nothing.
    pub fn record_pids(&mut self, id: crate::models::TunerSessionId, pids: Vec<u32>)
        requires
            old(self).wf(),
        ensures
            final(self).wf(),
            final(self).session_seq == old(self).session_seq,
            final(self).tuner_filter == old(self).tuner_filter,
            ({
                let ti = id.tuner_index as int;
                if 0 <= ti < old(self).tuners@.len() && (match old(self).tuners@[ti].activity {
                    TunerActivity::Active(os) => os.id == id,
                    TunerActivity::Inactive => false,
                }) {
                    &&& final(self).tuners@.len() == old(self).tuners@.len()
                    &&& (forall|j: int|
                        0 <= j < old(self).tuners@.len() && j != ti ==> final(self).tuners@[j]
                            == old(self).tuners@[j])
                    &&& tuner_frame_eq(final(self).tuners@[ti], old(self).tuners@[ti])
                    &&& (match (old(self).tuners@[ti].activity, final(self).tuners@[ti].activity) {
                        (TunerActivity::Active(os), TunerActivity::Active(ns)) => ns == (
                        TunerSession { pids, ..os }),
                        _ => false,
                    })
                } else {
                    final(self).tuners@ == old(self).tuners@
                }
            }),
    {
        let ti = id.tuner_index;
        if ti >= self.tuners.len() {
            return ;
        }
        let mut t = self.tuners.remove(ti);
        match &mut t.activity {
            TunerActivity::Inactive => {},
            TunerActivity::Active(sess) => {
                if sess.id.session_number == id.session_number && sess.id.tuner_index
                    == id.tuner_index {
                    sess.pids = pids;
                }
            },
        }
        self.tuners.insert(ti, t);
        proof {
            assert(forall|j: int|
                0 <= j < old(self).tuners@.len() && j != ti ==> self.tuners@[j] == old(
                    self,
                ).tuners@[j]);
            if !(match old(self).tuners@[ti as int].activity {
                TunerActivity::Active(os) => os.id == id,
                TunerActivity::Inactive => false,
            }) {
                assert(self.tuners@ =~= old(self).tuners@);
            }
        }
    }
}

// ---------------------------------------------------------------------------
// laws of admission

/// After a successful admission of an ordinary request — no tracker
/// identity, no dedicated tuner — the session handed back runs on the
/// requested channel: same channel type, same channel string.
pub proof fn lemma_admission_matches_request(
    m0: TunerManager,
    m1: TunerManager,
    channel: Channel,
    user: TunerUser,
    sub: TunerSubscription,
)
    requires
        m0.wf(),
        start_streaming_post(m0, m1, channel, user, Ok(sub)),
        !(user.info is Tracker),
        forall|j: int|
            0 <= j < m0.tuners@.len() ==> !(#[trigger] m0.tuners@[j]).spec_is_dedicated_for(user),
    ensures
        0 <= sub.id.session_id.tuner_index < m1.tuners@.len(),
        m1.tuners@[sub.id.session_id.tuner_index as int].activity matches TunerActivity::Active(s)
            && s.channel.channel_type == channel.channel_type && s.channel.channel@
            == channel.channel@,
{
    let ts = m0.tuners@;
    assert forall|j: int| 0 <= j < ts.len() implies !dedicated_pred(user)(#[trigger] ts[j]) by {}
    lemma_first_index_none(ts, dedicated_pred(user));
    match spec_admission(ts, channel, user) {
        Admission::Reuse { tuner: i } => {
            lemma_first_index_props(ts, reuse_pred(channel));
            assert(reuse_pred(channel)(ts[i]));
            assert(ts[i].wf() && ts[i].index == i);
        },
        Admission::Fresh { tuner: i } => {
            lemma_first_index_props(ts, available_pred(channel));
        },
        Admission::Grab { tuner: i } => {
            lemma_first_index_props(ts, grab_pred(channel, user.priority));
        },
        _ => {},
    }
}

/// Where an active, non-dedicated session on the requested channel exists,
/// an ordinary request is admitted by sharing it: the subscription names
/// the existing session, under a serial no current subscriber holds.
pub proof fn lemma_reuse_keeps_session(
    m0: TunerManager,
    m1: TunerManager,
    channel: Channel,
    user: TunerUser,
    sub: TunerSubscription,
)
    requires
        m0.wf(),
        start_streaming_post(m0, m1, channel, user, Ok(sub)),
        !(user.info is Tracker),
        forall|j: int|
            0 <= j < m0.tuners@.len() ==> !(#[trigger] m0.tuners@[j]).spec_is_dedicated_for(user),
        exists|i: int|
            0 <= i < m0.tuners@.len() && (#[trigger] m0.tuners@[i]).dedicated_for is None
                && m0.tuners@[i].spec_is_reuseable(channel),
    ensures
        0 <= sub.id.session_id.tuner_index < m0.tuners@.len(),
        m0.tuners@[sub.id.session_id.tuner_index as int].activity matches TunerActivity::Active(os)
            && sub.id.session_id == os.id && (forall|k: int|
            0 <= k < os.subscribers@.len() ==> (#[trigger] os.subscribers@[k]).serial_number
                != sub.id.serial_number),
{
    let ts = m0.tuners@;
    assert forall|j: int| 0 <= j < ts.len() implies !dedicated_pred(user)(#[trigger] ts[j]) by {}
    lemma_first_index_none(ts, dedicated_pred(user));
    let w = choose|i: int|
        0 <= i < ts.len() && (#[trigger] ts[i]).dedicated_for is None && ts[i].spec_is_reuseable(
            channel,
        );
    assert(reuse_pred(channel)(ts[w]));
    lemma_first_index_props(ts, reuse_pred(channel));
    match spec_admission(ts, channel, user) {
        Admission::Reuse { tuner: i } => {
            assert(reuse_pred(channel)(ts[i]));
            assert(ts[i].wf() && ts[i].index == i);
            let os = ts[i].activity->Active_0;
            assert(sub.id.serial_number == os.next_serial_number);
        },
        _ => {
            assert(false);
        },
    }
}

/// When a request is admitted by grabbing a tuner, every subscriber of the
/// replaced session ranked strictly below the request — unless the request
/// carried the sentinel priority, which always wins.
pub proof fn lemma_preemption(
    m0: TunerManager,
    m1: TunerManager,
    channel: Channel,
    user: TunerUser,
    sub: TunerSubscription,
    i: int,
)
    requires
        m0.wf(),
        start_streaming_post(m0, m1, channel, user, Ok(sub)),
        spec_admission(m0.tuners@, channel, user) == (Admission::Grab { tuner: i }),
    ensures
        0 <= i < m0.tuners@.len(),
        m0.tuners@[i].activity matches TunerActivity::Active(os) ==> forall|k: int|
            0 <= k < os.subscribers@.len() ==> user.priority.is_grab() || (#[trigger] os.subscribers@[k]).user.priority.value
                < user.priority.value,
{
    let ts = m0.tuners@;
    lemma_first_index_props(ts, grab_pred(channel, user.priority));
    match spec_admission(ts, channel, user) {
        Admission::Grab { tuner: g } => {
            assert(g == i);
            assert(grab_pred(channel, user.priority)(ts[i]));
            assert(ts[i].spec_can_grab(user.priority));
        },
        _ => {
            assert(false);
        },
    }
}

/// Stopping a subscription removes exactly the one subscriber the id
/// names: serials are unique within a session, so the session loses one
/// entry — the one carrying the fired serial — and keeps every other.
pub proof fn lemma_stop_removes_exactly_one(
    m0: TunerManager,
    m1: TunerManager,
    id: TunerSubscriptionId,
)
    requires
        m0.wf(),
        TunerManager::stop_streaming_post(m0, m1, id, Ok(())),
        0 <= id.session_id.tuner_index < m0.tuners@.len(),
        m0.tuners@[id.session_id.tuner_index as int].activity matches TunerActivity::Active(os)
            && os.subscribers@.len() > 0 && spec_find_serial(os.subscribers@, id.serial_number)
            is Some,
    ensures
        ({
            let os = m0.tuners@[id.session_id.tuner_index as int].activity->Active_0;
            let j = spec_find_serial(os.subscribers@, id.serial_number).unwrap();
            let remaining = os.subscribers@.remove(j);
            &&& 0 <= j < os.subscribers@.len()
            &&& os.subscribers@[j].serial_number == id.serial_number
            &&& forall|l: int|
                0 <= l < remaining.len() ==> (#[trigger] remaining[l]).serial_number
                    != id.serial_number
            &&& (match m1.tuners@[id.session_id.tuner_index as int].activity {
                TunerActivity::Active(ns) => ns.subscribers@ == remaining,
                TunerActivity::Inactive => remaining.len() == 0,
            })
        }),
{
    let ti = id.session_id.tuner_index as int;
    let os = m0.tuners@[ti].activity->Active_0;
    lemma_find_serial_found(os.subscribers@, id.serial_number);
    let j = spec_find_serial(os.subscribers@, id.serial_number).unwrap();
    let remaining = os.subscribers@.remove(j);
    assert(m0.tuners@[ti].wf());
    assert forall|l: int|
        0 <= l < remaining.len() implies (#[trigger] remaining[l]).serial_number
        != id.serial_number by {
        if l < j {
            assert(remaining[l] == os.subscribers@[l]);
            assert(os.subscribers@[l].serial_number < os.subscribers@[j].serial_number);
        } else {
            assert(remaining[l] == os.subscribers@[l + 1]);
            assert(os.subscribers@[j].serial_number < os.subscribers@[l + 1].serial_number);
        }
    }
}

/// Where the serial search lands, the serial matches.
proof fn lemma_find_serial_found(subs: Seq<Subscriber>, serial: u32)
    ensures
        spec_find_serial(subs, serial) matches Some(j) ==> 0 <= j < subs.len()
            && subs[j].serial_number == serial,
    decreases subs.len(),
{
    if subs.len() > 0 && subs[0].serial_number != serial {
        lemma_find_serial_found(subs.drop_first(), serial);
    }
}

} // verus!
