use vstd::prelude::*;
use crate::registry::ReceiverId;
use crate::timestamp::{audio_step_ok, mul_div_floor, mul_div_spec, AudioTiming, TimestampData, TimestampError, SECOND};

verus! {

/// Largest accepted loss threshold.
pub const MAX_LOSS_THRESHOLD: u32 = 60;

/// Samples per pull, sample rate and channel count that the element asks the
/// frame synchroniser for.
pub const PULL_SAMPLES: u64 = 1000;
pub const PULL_RATE: u64 = 48000;
pub const PULL_CHANNELS: u32 = 1;

/// Bytes in one sample of one channel (signed 16-bit PCM).
pub const BYTES_PER_SAMPLE: u64 = 2;

/// Configuration of one source element.
#[derive(Clone, Debug)]
pub struct Settings {
    pub stream_name: String,
    pub ip: String,
    pub loss_threshold: u32,
    pub receiver_id: ReceiverId,
    /// Per-buffer latency in ns, known once caps are fixed.
    pub latency: Option<u64>,
}

impl Default for Settings {
    fn default() -> (r: Settings)
        ensures
            r.stream_name@ == "Fixed ndi stream name"@,
            r.ip@.len() == 0,
            r.loss_threshold == 5,
            r.receiver_id == 0,
            r.latency is None,
    {
        Settings {
            stream_name: "Fixed ndi stream name".to_owned(),
            ip: String::new(),
            loss_threshold: 5,
            receiver_id: 0,
            latency: None,
        }
    }
}

/// The configurable fields.
#[derive(Clone, Copy, Debug, PartialEq, Eq, Structural)]
pub enum Property {
    StreamName,
    Ip,
    LossThreshold,
}

/// A value read from or written to a property.
#[derive(Clone, Debug)]
pub enum PropertyValue {
    Str(String),
    UInt(u32),
}

#[derive(Clone, Copy, Debug, PartialEq, Eq, Structural)]
pub enum PropertyError {
    /// Out of the property's range, or of the wrong kind.
    InvalidPropertyValue,
}

impl Settings {
    /// Writes one property. A loss threshold above the maximum, or a value of
    /// the wrong kind, is refused and nothing changes.
    pub fn set_property(&mut self, prop: Property, value: PropertyValue) -> (r: Result<(), PropertyError>)
        ensures
            r.is_ok() <==> match (prop, value) {
                (Property::StreamName, PropertyValue::Str(_)) => true,
                (Property::Ip, PropertyValue::Str(_)) => true,
                (Property::LossThreshold, PropertyValue::UInt(v)) => v <= MAX_LOSS_THRESHOLD,
                _ => false,
            },
            r.is_err() ==> final(self).stream_name@ == old(self).stream_name@ && final(self).ip@ == old(self).ip@
                && final(self).loss_threshold == old(self).loss_threshold,
            r.is_ok() ==> match value {
                PropertyValue::Str(s) => if prop == Property::StreamName {
                    final(self).stream_name@ == s@ && final(self).ip@ == old(self).ip@
                        && final(self).loss_threshold == old(self).loss_threshold
                } else {
                    final(self).ip@ == s@ && final(self).stream_name@ == old(self).stream_name@
                        && final(self).loss_threshold == old(self).loss_threshold
                },
                PropertyValue::UInt(v) => final(self).loss_threshold == v
                    && final(self).stream_name@ == old(self).stream_name@ && final(self).ip@ == old(self).ip@,
            },
            final(self).receiver_id == old(self).receiver_id,
            final(self).latency == old(self).latency,
    {
        match (prop, value) {
            (Property::StreamName, PropertyValue::Str(s)) => {
                self.stream_name = s;
                Ok(())
            },
            (Property::Ip, PropertyValue::Str(s)) => {
                self.ip = s;
                Ok(())
            },
            (Property::LossThreshold, PropertyValue::UInt(v)) => {
                if v > MAX_LOSS_THRESHOLD {
                    Err(PropertyError::InvalidPropertyValue)
                } else {
                    self.loss_threshold = v;
                    Ok(())
                }
            },
            _ => Err(PropertyError::InvalidPropertyValue),
        }
    }

    /// Reads one property.
    pub fn property(&self, prop: Property) -> (r: PropertyValue)
        ensures
            prop == Property::StreamName ==> (r matches PropertyValue::Str(s) && s@ == self.stream_name@),
            prop == Property::Ip ==> (r matches PropertyValue::Str(s) && s@ == self.ip@),
            prop == Property::LossThreshold ==> r == PropertyValue::UInt(self.loss_threshold),
    {
        match prop {
            Property::StreamName => PropertyValue::Str(self.stream_name.clone()),
            Property::Ip => PropertyValue::Str(self.ip.clone()),
            Property::LossThreshold => PropertyValue::UInt(self.loss_threshold),
        }
    }
}

/// A negotiated audio format: interleaved signed 16-bit PCM.
#[derive(Clone, Copy, Debug, PartialEq, Eq, Structural)]
pub struct AudioInfo {
    pub rate: u32,
    pub channels: u32,
}

impl AudioInfo {
    /// The format for `rate` and `channels`, when both are positive as the
    /// advertised capabilities demand.
    pub fn new(rate: i32, channels: i32) -> (r: Option<AudioInfo>)
        ensures
            r.is_some() <==> (rate > 0 && channels > 0),
            r matches Some(i) ==> i.rate == rate && i.channels == channels,
    {
        if rate > 0 && channels > 0 {
            Some(AudioInfo { rate: rate as u32, channels: channels as u32 })
        } else {
            None
        }
    }
}

/// Why an element operation failed.
#[derive(Clone, Copy, Debug, PartialEq, Eq, Structural)]
pub enum ElementError {
    /// No receiver could be connected at start.
    ConnectionNotFound,
    /// A pull came before caps were negotiated.
    NegotiationMissing,
    /// The buffer's size or timing does not fit in 64 bits.
    Overflow,
}

/// What one pull produces: the buffer size in bytes and its timing.
#[derive(Clone, Copy, Debug, PartialEq, Eq, Structural)]
pub struct AudioBufferPlan {
    pub size: u64,
    pub timing: AudioTiming,
}

/// Caps fixed from the live stream, and the latency they imply.
#[derive(Clone, Copy, Debug, PartialEq, Eq, Structural)]
pub struct FixedCaps {
    pub rate: u64,
    pub channels: u32,
    pub latency: u64,
}

/// Runtime state of one audio source element.
pub struct AudioSource {
    pub settings: Settings,
    /// The negotiated format; empty until caps are set.
    pub info: Option<AudioInfo>,
    pub timestamps: TimestampData,
}

/// Bytes of a buffer of `n` samples on `channels` channels.
pub open spec fn buffer_size_spec(n: int, channels: int) -> int {
    n * channels * BYTES_PER_SAMPLE
}

impl AudioSource {
    /// A stopped element with default settings.
    pub fn new() -> (r: AudioSource)
        ensures
            r.info is None,
            r.timestamps.sample_offset == 0,
            r.settings.stream_name@ == "Fixed ndi stream name"@,
            r.settings.ip@.len() == 0,
            r.settings.loss_threshold == 5,
            r.settings.receiver_id == 0,
            r.settings.latency is None,
    {
        AudioSource { settings: Settings::default(), info: None, timestamps: TimestampData::new() }
    }

    /// Takes the id that connecting gave: state and sample counter start
    /// afresh; zero means no receiver was reached.
    pub fn start(&mut self, id: ReceiverId) -> (r: Result<(), ElementError>)
        ensures
            final(self).info is None,
            final(self).timestamps.sample_offset == 0,
            final(self).settings == (Settings { receiver_id: id, ..old(self).settings }),
            r.is_err() <==> id == 0,
            r.is_err() ==> r == Err::<(), ElementError>(ElementError::ConnectionNotFound),
    {
        self.info = None;
        self.timestamps = TimestampData::new();
        self.settings.receiver_id = id;
        if id == 0 {
            Err(ElementError::ConnectionNotFound)
        } else {
            Ok(())
        }
    }

    /// Clears the state and the receiver id, returning the id to release.
    pub fn stop(&mut self) -> (r: ReceiverId)
        ensures
            r == old(self).settings.receiver_id,
            final(self).settings == (Settings { receiver_id: 0, ..old(self).settings }),
            final(self).info is None,
            final(self).timestamps == old(self).timestamps,
    {
        self.info = None;
        let id = self.settings.receiver_id;
        self.settings.receiver_id = 0;
        id
    }

    /// Stores the negotiated format.
    pub fn set_caps(&mut self, info: AudioInfo)
        ensures
            final(self).info == Some(info),
            final(self).timestamps == old(self).timestamps,
            final(self).settings == old(self).settings,
    {
        self.info = Some(info);
    }

    /// Fixes the caps to the live `rate` and `channels` and records the
    /// latency of one pull of `samples` samples: `samples * SECOND / rate`.
    pub fn fixate(&mut self, rate: u64, channels: u32, samples: u64) -> (r: Option<FixedCaps>)
        ensures
            r.is_some() <==> (rate != 0 && mul_div_spec(SECOND as int, samples as int, rate as int) <= u64::MAX),
            r matches Some(c) ==> c.rate == rate && c.channels == channels
                && c.latency == mul_div_spec(SECOND as int, samples as int, rate as int)
                && final(self).settings == (Settings { latency: Some(c.latency), ..old(self).settings }),
            r is None ==> final(self).settings == old(self).settings,
            final(self).info == old(self).info,
            final(self).timestamps == old(self).timestamps,
    {
        match mul_div_floor(SECOND, samples, rate) {
            None => None,
            Some(latency) => {
                self.settings.latency = Some(latency);
                Some(FixedCaps { rate, channels, latency })
            },
        }
    }

    /// Answers a latency query: the recorded latency once caps are set.
    pub fn latency_query(&self) -> (r: Option<u64>)
        ensures
            r.is_some() <==> (self.info.is_some() && self.settings.latency.is_some()),
            r.is_some() ==> r == self.settings.latency,
    {
        match self.info {
            None => None,
            Some(_) => self.settings.latency,
        }
    }

    /// Plans one pull of `n_samples` samples: the buffer's size for the
    /// negotiated channel count, and its timing from the sample counter,
    /// which advances past it.
    pub fn create(&mut self, n_samples: u64) -> (r: Result<AudioBufferPlan, ElementError>)
        ensures
            (r == Err::<AudioBufferPlan, ElementError>(ElementError::NegotiationMissing)) <==> old(self).info is None,
            old(self).info matches Some(info) ==> (r.is_ok() <==> (
                buffer_size_spec(n_samples as int, info.channels as int) <= u64::MAX
                && audio_step_ok(old(self).timestamps.sample_offset as int, n_samples as int, info.rate as int))),
            r matches Ok(p) ==> (old(self).info matches Some(info) && {
                &&& p.size == buffer_size_spec(n_samples as int, info.channels as int)
                &&& p.timing.pts == mul_div_spec(old(self).timestamps.sample_offset as int, SECOND as int, info.rate as int)
                &&& p.timing.pts + p.timing.duration
                    == mul_div_spec(final(self).timestamps.sample_offset as int, SECOND as int, info.rate as int)
                &&& final(self).timestamps.sample_offset == old(self).timestamps.sample_offset + n_samples
            }),
            r.is_err() ==> final(self).timestamps == old(self).timestamps,
            final(self).info == old(self).info,
            final(self).settings == old(self).settings,
    {
        let info = match self.info {
            None => return Err(ElementError::NegotiationMissing),
            Some(i) => i,
        };
        let size: u64 = match n_samples.checked_mul(info.channels as u64) {
            None => {
                proof {
                    assert(n_samples * info.channels * BYTES_PER_SAMPLE > u64::MAX) by (nonlinear_arith)
                        requires n_samples * info.channels > u64::MAX, BYTES_PER_SAMPLE == 2;
                }
                return Err(ElementError::Overflow);
            },
            Some(v) => match v.checked_mul(BYTES_PER_SAMPLE) {
                None => return Err(ElementError::Overflow),
                Some(w) => w,
            },
        };
        match self.timestamps.advance(n_samples, info.rate as u64) {
            Ok(timing) => Ok(AudioBufferPlan { size, timing }),
            Err(_) => Err(ElementError::Overflow),
        }
    }
}

} // verus!
