use ndi_source::element::{AudioInfo, AudioSource, ElementError, Property, PropertyError, PropertyValue, PULL_CHANNELS, PULL_RATE, PULL_SAMPLES};
use ndi_source::timestamp::{mul_div_floor, update_baseline, video_pts, TimestampData, TimestampError};

#[test]
fn audio_pull_of_thousand_samples() {
    let mut src = AudioSource::new();
    assert!(src.start(1).is_ok());
    src.set_caps(AudioInfo::new(48000, 1).unwrap());
    let plan = src.create(1000).unwrap();
    assert_eq!(plan.size, 2000);
    assert_eq!(plan.timing.pts, 0);
    assert_eq!(plan.timing.duration, 20_833_333);
    let next = src.create(1000).unwrap();
    assert_eq!(next.timing.pts, 20_833_333);
    assert_eq!(next.timing.duration, 20_833_333);
    let third = src.create(1000).unwrap();
    assert_eq!(third.timing.pts, 41_666_666);
    assert_eq!(third.timing.duration, 20_833_334);
    assert_eq!(src.timestamps.sample_offset, 3000);
}

#[test]
fn audio_timestamps_are_contiguous() {
    let mut ts = TimestampData::new();
    let mut prev_end = 0u64;
    for _ in 0..10 {
        let t = ts.advance(333, 7).unwrap();
        assert_eq!(t.pts, prev_end);
        assert!(t.duration > 0);
        prev_end = t.pts + t.duration;
    }
    assert_eq!(prev_end, 3330u64 * 1_000_000_000 / 7);
    assert_eq!(ts.advance(1, 0), Err(TimestampError::ZeroRate));
}

#[test]
fn pull_before_caps_is_refused() {
    let mut src = AudioSource::new();
    assert_eq!(src.start(0), Err(ElementError::ConnectionNotFound));
    assert_eq!(src.create(1000), Err(ElementError::NegotiationMissing));
    assert_eq!(src.latency_query(), None);
}

#[test]
fn fixate_records_latency() {
    let mut src = AudioSource::new();
    let caps = src.fixate(PULL_RATE, PULL_CHANNELS, PULL_SAMPLES).unwrap();
    assert_eq!(caps.latency, 20_833_333);
    assert_eq!(src.latency_query(), None);
    src.set_caps(AudioInfo::new(48000, 1).unwrap());
    assert_eq!(src.latency_query(), Some(20_833_333));
    assert!(src.fixate(0, 1, 1000).is_none());
    assert!(AudioInfo::new(0, 1).is_none());
}

#[test]
fn video_pts_clamps_before_baseline() {
    assert_eq!(video_pts(1_000, 0), Err(TimestampError::BaselineUnset));
    assert_eq!(video_pts(1_500, 1_000), Ok(50_000));
    assert_eq!(video_pts(900, 1_000), Ok(0));
    assert_eq!(video_pts(u64::MAX, 1), Err(TimestampError::Overflow));
    assert_eq!(update_baseline(0, 77), 77);
    assert_eq!(update_baseline(50, 77), 50);
}

#[test]
fn mul_div_floor_values() {
    assert_eq!(mul_div_floor(1000, 1_000_000_000, 48000), Some(20_833_333));
    assert_eq!(mul_div_floor(1, 1, 0), None);
    assert_eq!(mul_div_floor(u64::MAX, 2, 1), None);
    assert_eq!(mul_div_floor(u64::MAX, 2, 2), Some(u64::MAX));
}

#[test]
fn properties_round_trip() {
    let mut src = AudioSource::new();
    let st = &mut src.settings;
    assert!(matches!(st.property(Property::StreamName), PropertyValue::Str(ref n) if n == "Fixed ndi stream name"));
    assert!(st.set_property(Property::Ip, PropertyValue::Str("127.0.0.1:5961".to_string())).is_ok());
    assert!(matches!(st.property(Property::Ip), PropertyValue::Str(ref n) if n == "127.0.0.1:5961"));
    assert_eq!(st.set_property(Property::LossThreshold, PropertyValue::UInt(61)), Err(PropertyError::InvalidPropertyValue));
    assert!(matches!(st.property(Property::LossThreshold), PropertyValue::UInt(5)));
    assert!(st.set_property(Property::LossThreshold, PropertyValue::UInt(60)).is_ok());
    assert!(matches!(st.property(Property::LossThreshold), PropertyValue::UInt(60)));
    assert_eq!(st.set_property(Property::Ip, PropertyValue::UInt(3)), Err(PropertyError::InvalidPropertyValue));
}

#[test]
fn lifecycle_keeps_settings() {
    let mut src = AudioSource::new();
    assert_eq!(src.settings.stream_name, "Fixed ndi stream name");
    assert_eq!(src.settings.ip, "");
    assert_eq!(src.settings.latency, None);
    src.settings.loss_threshold = 9;
    assert!(src.start(4).is_ok());
    assert_eq!(src.settings.loss_threshold, 9);
    assert_eq!(src.create(10), Err(ElementError::NegotiationMissing));
    assert_eq!(src.timestamps.sample_offset, 0);
    assert_eq!(src.settings.stream_name, "Fixed ndi stream name");
    assert_eq!(src.stop(), 4);
    assert_eq!(src.settings.receiver_id, 0);
    assert_eq!(src.settings.loss_threshold, 9);
}
