//! The ingress decisions of the hub: topic dispatch and the HV transition
//! state machine.
//!
//! The application decodes each inbound envelope, hands the hub its topic,
//! its first value coerced to an integer and its timestamp, and performs the
//! action that comes back. An On transition takes two steps: the hub first asks
//! for the event directory, and only the report that the directory was created
//! commits the transition and yields the broadcast.
use vstd::prelude::*;

use crate::text::str_equal;
use crate::{
    HVOnData, HVTransition, HV_EN_TOPIC, MUTE_EN_TOPIC, SEND_LOGGER_DATA, SEND_SERIAL_DATA,
    SEND_VIDEO_DATA,
};

verus! {

/// What an inbound topic means to the hub.
#[derive(Clone, Copy, Debug, PartialEq, Eq, Structural)]
pub enum TopicKind {
    HvEnable,
    Mute,
    UploadLogs,
    UploadSerial,
    UploadVideo,
    Other,
}

/// The kind of a topic, by exact, case-sensitive match.
pub open spec fn topic_kind(t: Seq<char>) -> TopicKind {
    if t == HV_EN_TOPIC@ {
        TopicKind::HvEnable
    } else if t == MUTE_EN_TOPIC@ {
        TopicKind::Mute
    } else if t == SEND_LOGGER_DATA@ {
        TopicKind::UploadLogs
    } else if t == SEND_SERIAL_DATA@ {
        TopicKind::UploadSerial
    } else if t == SEND_VIDEO_DATA@ {
        TopicKind::UploadVideo
    } else {
        TopicKind::Other
    }
}

/// Classifies an inbound topic.
pub fn classify_topic(topic: &str) -> (r: TopicKind)
    ensures
        r == topic_kind(topic@),
{
    if str_equal(topic, HV_EN_TOPIC) {
        TopicKind::HvEnable
    } else if str_equal(topic, MUTE_EN_TOPIC) {
        TopicKind::Mute
    } else if str_equal(topic, SEND_LOGGER_DATA) {
        TopicKind::UploadLogs
    } else if str_equal(topic, SEND_SERIAL_DATA) {
        TopicKind::UploadSerial
    } else if str_equal(topic, SEND_VIDEO_DATA) {
        TopicKind::UploadVideo
    } else {
        TopicKind::Other
    }
}

/// What the application must do for one inbound envelope.
#[derive(Clone, Copy, Debug, PartialEq, Eq, Structural)]
pub enum HubAction {
    /// Nothing to do.
    Ignore,
    /// Create the event directory for an On transition keyed by `time_ms`, then
    /// report the outcome with `Hub::event_dir_result`.
    CreateEventDir { time_ms: u64 },
    /// Broadcast this HV transition.
    BroadcastHv(HVTransition),
    /// Broadcast this mute state.
    BroadcastMute(bool),
    /// Start an upload in the background for the flagged artifact classes.
    Upload { logs: bool, video: bool, serial: bool },
    /// An HV sample that is neither 0 nor 1: log it and drop it.
    InvalidHv,
    /// A mute sample that is neither 0 nor 1: log it and drop it.
    InvalidMute,
}

/// The abstract state of the hub.
pub struct HubModel {
    /// The last successfully applied HV state.
    pub hv: HVTransition,
    /// Permanent-On bench mode: HV samples are not processed.
    pub augment: bool,
    /// The On transition that waits for its event directory.
    pub pending: Option<u64>,
}

/// The event time, in milliseconds, of an envelope stamped `time_us`.
pub open spec fn event_time_ms(time_us: u64) -> u64 {
    (time_us / 1000) as u64
}

/// One HV-enable sample applied to the hub.
pub open spec fn hv_sample_step(m: HubModel, code: u8, time_us: u64) -> (HubModel, HubAction) {
    if m.augment {
        (m, HubAction::Ignore)
    } else if code == 1 && !m.hv.spec_is_on() {
        (
            HubModel { pending: Some(event_time_ms(time_us)), ..m },
            HubAction::CreateEventDir { time_ms: event_time_ms(time_us) },
        )
    } else if code == 0 && m.hv.spec_is_on() {
        (HubModel { hv: HVTransition::TransitionOff, pending: None, ..m }, HubAction::BroadcastHv(HVTransition::TransitionOff))
    } else if code != 0 && code != 1 {
        (m, HubAction::InvalidHv)
    } else {
        (m, HubAction::Ignore)
    }
}

/// The action for a sample on a topic other than the HV topic.
pub open spec fn other_topic_action(kind: TopicKind, code: u8) -> HubAction {
    match kind {
        TopicKind::Mute => if code == 1 {
            HubAction::BroadcastMute(true)
        } else if code == 0 {
            HubAction::BroadcastMute(false)
        } else {
            HubAction::InvalidMute
        },
        TopicKind::UploadLogs => if code == 1 {
            HubAction::Upload { logs: true, video: false, serial: false }
        } else {
            HubAction::Ignore
        },
        TopicKind::UploadSerial => if code == 1 {
            HubAction::Upload { logs: false, video: false, serial: true }
        } else {
            HubAction::Ignore
        },
        TopicKind::UploadVideo => if code == 1 {
            HubAction::Upload { logs: false, video: true, serial: false }
        } else {
            HubAction::Ignore
        },
        _ => HubAction::Ignore,
    }
}

/// One inbound sample applied to the hub.
pub open spec fn inbound_step(m: HubModel, kind: TopicKind, code: u8, time_us: u64) -> (HubModel, HubAction) {
    if kind == TopicKind::HvEnable {
        hv_sample_step(m, code, time_us)
    } else {
        (m, other_topic_action(kind, code))
    }
}

/// The report on the event directory applied to the hub: the pending On
/// transition is committed only where the directory was created.
pub open spec fn event_dir_step(m: HubModel, created: bool) -> (HubModel, Option<HVTransition>) {
    match m.pending {
        Some(t) => if created {
            (
                HubModel { hv: HVTransition::TransitionOn(HVOnData { time_ms: t }), pending: None, ..m },
                Some(HVTransition::TransitionOn(HVOnData { time_ms: t })),
            )
        } else {
            (HubModel { pending: None, ..m }, None)
        },
        None => (m, None),
    }
}

/// The hub's state: the authoritative HV state and the bench-mode flag.
pub struct Hub {
    hv: HVTransition,
    augment: bool,
    pending: Option<u64>,
}

impl View for Hub {
    type V = HubModel;

    closed spec fn view(&self) -> HubModel {
        HubModel { hv: self.hv, augment: self.augment, pending: self.pending }
    }
}

impl Hub {
    /// A hub in the Off state. With `augment_hv_on` the hub is in bench mode:
    /// `start` forces a permanent On transition and HV samples are ignored.
    pub fn new(augment_hv_on: bool) -> (r: Hub)
        ensures
            r@ == (HubModel { hv: HVTransition::TransitionOff, augment: augment_hv_on, pending: None }),
    {
        Hub { hv: HVTransition::TransitionOff, augment: augment_hv_on, pending: None }
    }

    /// The current HV state.
    pub fn hv_state(&self) -> (r: HVTransition)
        ensures
            r == self@.hv,
    {
        self.hv
    }

    /// The startup action: in bench mode, ask for the event directory of a
    /// permanent On transition at `now_ms`; otherwise nothing.
    pub fn start(&mut self, now_ms: u64) -> (r: HubAction)
        ensures
            old(self)@.augment ==> r == (HubAction::CreateEventDir { time_ms: now_ms })
                && final(self)@ == (HubModel { pending: Some(now_ms), ..old(self)@ }),
            !old(self)@.augment ==> r == HubAction::Ignore && final(self)@ == old(self)@,
    {
        if self.augment {
            self.pending = Some(now_ms);
            HubAction::CreateEventDir { time_ms: now_ms }
        } else {
            HubAction::Ignore
        }
    }

    /// Applies one inbound envelope: its topic's kind, its first value coerced
    /// to an integer (`code`) and its timestamp in microseconds.
    pub fn on_inbound(&mut self, kind: TopicKind, code: u8, time_us: u64) -> (r: HubAction)
        ensures
            (final(self)@, r) == inbound_step(old(self)@, kind, code, time_us),
    {
        match kind {
            TopicKind::HvEnable => self.on_hv_sample(code, time_us),
            TopicKind::Mute => if code == 1 {
                HubAction::BroadcastMute(true)
            } else if code == 0 {
                HubAction::BroadcastMute(false)
            } else {
                HubAction::InvalidMute
            },
            TopicKind::UploadLogs => if code == 1 {
                HubAction::Upload { logs: true, video: false, serial: false }
            } else {
                HubAction::Ignore
            },
            TopicKind::UploadSerial => if code == 1 {
                HubAction::Upload { logs: false, video: false, serial: true }
            } else {
                HubAction::Ignore
            },
            TopicKind::UploadVideo => if code == 1 {
                HubAction::Upload { logs: false, video: true, serial: false }
            } else {
                HubAction::Ignore
            },
            TopicKind::Other => HubAction::Ignore,
        }
    }

    /// Applies one HV-enable sample: edge-triggered against the last applied state.
    pub fn on_hv_sample(&mut self, code: u8, time_us: u64) -> (r: HubAction)
        ensures
            (final(self)@, r) == hv_sample_step(old(self)@, code, time_us),
    {
        if self.augment {
            return HubAction::Ignore;
        }
        let on = self.hv.is_on();
        if code == 1 && !on {
            let time_ms = time_us / 1000;
            self.pending = Some(time_ms);
            HubAction::CreateEventDir { time_ms }
        } else if code == 0 && on {
            self.hv = HVTransition::TransitionOff;
            self.pending = None;
            HubAction::BroadcastHv(HVTransition::TransitionOff)
        } else if code != 0 && code != 1 {
            HubAction::InvalidHv
        } else {
            HubAction::Ignore
        }
    }

    /// Reports whether the event directory asked for was created. Returns the
    /// On transition to broadcast, which exists only once its directory does.
    pub fn event_dir_result(&mut self, created: bool) -> (r: Option<HVTransition>)
        ensures
            (final(self)@, r) == event_dir_step(old(self)@, created),
    {
        match self.pending {
            Some(t) => {
                self.pending = None;
                if created {
                    let on = HVTransition::TransitionOn(HVOnData { time_ms: t });
                    self.hv = on;
                    Some(on)
                } else {
                    None
                }
            },
            None => None,
        }
    }
}

/// The number of times the logical HV value changes along `codes`, starting
/// from `prev`: samples other than 0 and 1 carry no logical value.
pub open spec fn value_changes(prev: bool, codes: Seq<u8>) -> nat
    decreases codes.len(),
{
    if codes.len() == 0 {
        0
    } else if codes[0] == 0 || codes[0] == 1 {
        let v = codes[0] == 1;
        (if v != prev { 1nat } else { 0nat }) + value_changes(v, codes.drop_first())
    } else {
        value_changes(prev, codes.drop_first())
    }
}

/// The number of HV broadcasts made while the hub takes `samples`, each an
/// HV-enable code with its timestamp, where every event directory asked for
/// is created.
pub open spec fn hv_broadcasts(m: HubModel, samples: Seq<(u8, u64)>) -> nat
    decreases samples.len(),
{
    if samples.len() == 0 {
        0
    } else {
        let (m1, a) = hv_sample_step(m, samples[0].0, samples[0].1);
        let (m2, b) = if a is CreateEventDir {
            event_dir_step(m1, true)
        } else {
            (m1, None)
        };
        let n: nat = if b is Some || a is BroadcastHv { 1 } else { 0 };
        n + hv_broadcasts(m2, samples.drop_first())
    }
}

/// The HV-enable codes of a run of samples.
pub open spec fn sample_codes(samples: Seq<(u8, u64)>) -> Seq<u8> {
    samples.map_values(|s: (u8, u64)| s.0)
}

/// HV broadcasts are edge-triggered: over any run of HV-enable samples, the
/// number of broadcast transitions equals the number of changes of the logical
/// value, however often a value repeats.
pub proof fn lemma_broadcasts_count_value_changes(m: HubModel, samples: Seq<(u8, u64)>)
    requires
        !m.augment,
        m.pending is None,
    ensures
        hv_broadcasts(m, samples) == value_changes(m.hv.spec_is_on(), sample_codes(samples)),
    decreases samples.len(),
{
    if samples.len() > 0 {
        let rest = samples.drop_first();
        assert(sample_codes(rest) =~= sample_codes(samples).drop_first());
        let (m1, a) = hv_sample_step(m, samples[0].0, samples[0].1);
        let (m2, b) = if a is CreateEventDir {
            event_dir_step(m1, true)
        } else {
            (m1, None)
        };
        lemma_broadcasts_count_value_changes(m2, rest);
    }
}

/// An On transition becomes observable only after its event directory exists:
/// no inbound envelope yields an On broadcast, and the report on the event
/// directory yields one only where the directory was created, for the time
/// that was asked for.
pub proof fn lemma_on_only_after_directory(
    m: HubModel,
    kind: TopicKind,
    code: u8,
    time_us: u64,
    created: bool,
)
    ensures
        !(inbound_step(m, kind, code, time_us).1 matches HubAction::BroadcastHv(
            HVTransition::TransitionOn(_),
        )),
        event_dir_step(m, created).1 matches Some(t) ==> created && m.pending == Some(
            t->TransitionOn_0.time_ms,
        ) && t is TransitionOn,
{
}

} // verus!
