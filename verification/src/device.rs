//! What is known of an audio device, and what can go wrong with one.
use vstd::prelude::*;
use vstd::string::StringExecFns;
use crate::audio::{ChannelCount, SampleRate};
use crate::error::KotoError;

verus! {

/// Why an audio device session could not be started.
#[derive(Debug)]
pub enum DeviceError {
    /// The platform has no audio host.
    NoHost,
    /// There is no output device.
    NoOutputDevice,
    /// There is no input device.
    NoInputDevice,
    /// The device did not give or accept a configuration.
    ConfigError(String),
    /// The stream failed.
    StreamError(String),
}

impl DeviceError {
    /// The error in words.
    pub open spec fn text(&self) -> Seq<char> {
        match self {
            DeviceError::NoHost => "No audio host available"@,
            DeviceError::NoOutputDevice => "No output device available"@,
            DeviceError::NoInputDevice => "No input device available"@,
            DeviceError::ConfigError(cause) => "Failed to get device config: "@ + cause@,
            DeviceError::StreamError(cause) => "Stream error: "@ + cause@,
        }
    }

    /// The error in words.
    pub fn message(&self) -> (r: String)
        ensures
            r@ == self.text(),
    {
        match self {
            DeviceError::NoHost => String::from_str("No audio host available"),
            DeviceError::NoOutputDevice => String::from_str("No output device available"),
            DeviceError::NoInputDevice => String::from_str("No input device available"),
            DeviceError::ConfigError(cause) => String::from_str("Failed to get device config: ").concat(
                cause.as_str(),
            ),
            DeviceError::StreamError(cause) => String::from_str("Stream error: ").concat(cause.as_str()),
        }
    }
}

impl From<DeviceError> for KotoError {
    fn from(error: DeviceError) -> (r: KotoError)
        ensures
            r matches KotoError::AudioDevice(cause) && cause@ == error.text(),
    {
        KotoError::AudioDevice(error.message())
    }
}

impl vstd::std_specs::convert::FromSpecImpl<DeviceError> for KotoError {
    open spec fn obeys_from_spec() -> bool {
        false
    }

    open spec fn from_spec(error: DeviceError) -> KotoError {
        arbitrary()
    }
}

/// What a device says of itself.
#[derive(Debug, Clone)]
pub struct AudioDeviceInfo {
    pub name: String,
    pub sample_rate: SampleRate,
    pub channels: ChannelCount,
    pub is_input: bool,
    pub is_output: bool,
}

} // verus!
