//! Event-coordination core of the vehicle telemetry daemon.
//!
//! The library holds the decisions of the daemon as verified state machines
//! and byte/string functions; the asynchronous plumbing that performs the
//! actions lives in the application around it.
use vstd::prelude::*;

pub mod broker;
pub mod codec;
pub mod daq;
pub mod hub;
pub mod layout;
pub mod reactors;
pub mod shutdown;
pub mod supervisor;
pub mod text;
pub mod upload;

verus! {

/// A high-voltage transition, as broadcast to every reactor.
///
/// The latest broadcast value is also the authoritative HV state: `TransitionOff`
/// is the initial state.
#[derive(Clone, Copy, Debug, PartialEq, Eq, Structural)]
pub enum HVTransition {
    TransitionOn(HVOnData),
    TransitionOff,
}

/// Data carried by an On transition.
#[derive(Clone, Copy, Debug, PartialEq, Eq, Structural)]
pub struct HVOnData {
    /// Time HV was enabled, in milliseconds since the epoch; keys the event directory.
    pub time_ms: u64,
}

impl HVTransition {
    /// Whether this state is On.
    pub open spec fn spec_is_on(self) -> bool {
        self is TransitionOn
    }

    pub fn is_on(&self) -> (r: bool)
        ensures
            r == self.spec_is_on(),
    {
        match self {
            HVTransition::TransitionOn(_) => true,
            HVTransition::TransitionOff => false,
        }
    }
}

/// The topic carrying the HV enable sample: 1 is on, 0 is off.
pub const HV_EN_TOPIC: &'static str = "MPU/State/TSMS";

/// The topic carrying the mute button: 1 is muted, 0 is unmuted.
pub const MUTE_EN_TOPIC: &'static str = "WHEEL/Buttons/Mute";

/// The topic asking for the video artifacts to be uploaded: 1 means send.
pub const SEND_VIDEO_DATA: &'static str = "Scylla/Video/Send";

/// The topic asking for the logger artifacts to be uploaded: 1 means send.
pub const SEND_LOGGER_DATA: &'static str = "Scylla/Logger/Send";

/// The topic asking for the serial captures to be uploaded: 1 means send.
pub const SEND_SERIAL_DATA: &'static str = "Scylla/Serial/Send";

/// Milliseconds a producer waits for room in the outbound queue before it
/// drops the measurement.
pub const QUEUE_SEND_TIMEOUT_MS: u64 = 50;

/// A measurement to publish on the bus.
pub struct PublishableMessage {
    pub topic: String,
    /// The values, as IEEE-754 single-precision bit patterns.
    pub data: Vec<u32>,
    pub unit: String,
    /// When the measurement was taken, in microseconds since the epoch.
    pub time: u64,
}

/// Static settings of the hub.
pub struct MqttProcessorOptions {
    /// Address of the bus broker, as `host:port`.
    pub mqtt_path: String,
    /// Base URI of the upload server.
    pub scylla_url: String,
    /// The output root that holds the event directories.
    pub output_folder: String,
}

/// Settings of the video recorder.
pub struct SavePipelineOpts {
    /// The capture device to read video from.
    pub video: String,
}

} // verus!
