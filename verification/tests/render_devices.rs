//! Tests for the render-loop decisions, the pixel buffer, the channel
//! helpers, the capture settings, and the device-name sort.

use audio_visualizer::capture::buffer_size_request;
use audio_visualizer::capture::StreamSettings;
use audio_visualizer::devices::sort_by_name;
use audio_visualizer::devices::str_le;
use audio_visualizer::pixel_buf::PixelBuf;
use audio_visualizer::render::decimate;
use audio_visualizer::render::effective_dimensions;
use audio_visualizer::render::WindowPhase;
use audio_visualizer::render::DECIMATION_FACTOR;
use audio_visualizer::ChannelInterleavement;
use audio_visualizer::Channels;

#[test]
fn dimensions_default_to_1280_by_720() {
    assert_eq!(effective_dimensions(None, None), (720, 1280));
    assert_eq!(effective_dimensions(Some(600), None), (600, 1280));
    assert_eq!(effective_dimensions(None, Some(800)), (720, 800));
    assert_eq!(effective_dimensions(Some(10), Some(20)), (10, 20));
}

#[test]
fn decimate_keeps_every_fourth_sample() {
    let samples: Vec<u32> = (0..10).collect();
    assert_eq!(decimate(&samples, DECIMATION_FACTOR), vec![0, 4, 8]);
    assert_eq!(decimate(&samples, 1), samples);
    let empty: Vec<u32> = vec![];
    assert_eq!(decimate(&empty, 4), empty);
    let eight: Vec<u32> = (0..8).collect();
    assert_eq!(decimate(&eight, 4), vec![0, 4]);
}

/// Escape closes: one step after Escape is seen, the loop is no longer in
/// the running phase, and the stopping phase winds down to terminated.
#[test]
fn escape_leaves_running_within_one_step() {
    let phase = WindowPhase::Setup.step(true, false);
    assert_eq!(phase, WindowPhase::Running);
    let phase = phase.step(true, false);
    assert_eq!(phase, WindowPhase::Running);
    assert!(phase.keep_rendering());
    let phase = phase.step(true, true);
    assert_eq!(phase, WindowPhase::Stopping);
    assert!(!phase.keep_rendering());
    let phase = phase.step(true, false);
    assert_eq!(phase, WindowPhase::Terminated);
    let phase = phase.step(true, false);
    assert_eq!(phase, WindowPhase::Terminated);
}

#[test]
fn window_close_also_leaves_running() {
    let phase = WindowPhase::Running.step(false, false);
    assert_eq!(phase, WindowPhase::Stopping);
}

/// Non-standard rate warning: 96000 Hz asks for a warning, the two tested
/// rates do not; the setup itself accepts all of them.
#[test]
fn rate_warning_for_non_standard_rates() {
    let s = StreamSettings { channels: 1, sample_rate_hz: 96000 };
    assert!(s.rate_needs_warning());
    assert!(s.channels_supported());
    let s = StreamSettings { channels: 2, sample_rate_hz: 44100 };
    assert!(!s.rate_needs_warning());
    assert!(s.channels_supported());
    let s = StreamSettings { channels: 1, sample_rate_hz: 48000 };
    assert!(!s.rate_needs_warning());
}

#[test]
fn channel_counts_other_than_mono_or_stereo_are_rejected() {
    assert!(!StreamSettings { channels: 0, sample_rate_hz: 44100 }.channels_supported());
    assert!(!StreamSettings { channels: 3, sample_rate_hz: 44100 }.channels_supported());
    assert!(!StreamSettings { channels: 6, sample_rate_hz: 48000 }.channels_supported());
}

#[test]
fn buffer_size_request_policy() {
    assert_eq!(buffer_size_request(true, 64), None);
    assert_eq!(buffer_size_request(true, 4096), None);
    assert_eq!(buffer_size_request(false, 64), Some(128));
    assert_eq!(buffer_size_request(false, 512), Some(512));
}

#[test]
fn pixel_buf_round_trips_through_bytes() {
    let mut buf = PixelBuf::new(2, 2);
    assert_eq!(buf.0, vec![0u32; 4]);
    buf.0 = vec![0x00112233, 0x44556677, 0x8899aabb, 0xccddeeff];
    let bytes = buf.to_bytes();
    assert_eq!(
        &bytes[0..8],
        &[0x33, 0x22, 0x11, 0x00, 0x77, 0x66, 0x55, 0x44]
    );
    let words = buf.0.clone();
    let mut back = PixelBuf(vec![0; 4]);
    back.store_bytes(&bytes);
    assert_eq!(back.0, words);
}

#[test]
fn pixel_buf_store_bytes_reassembles_little_endian() {
    let mut buf = PixelBuf(vec![0]);
    buf.store_bytes(&vec![0x01, 0x02, 0x03, 0x04]);
    assert_eq!(buf.0, vec![0x04030201]);
}

#[test]
fn channels_helpers() {
    assert!(Channels::Mono.is_mono());
    assert!(!Channels::Mono.is_stereo());
    let stereo = Channels::Stereo(ChannelInterleavement::LRLR);
    assert!(stereo.is_stereo());
    assert!(!stereo.is_mono());
    assert!(stereo.stereo_interleavement().is_lrlr());
    assert!(!stereo.stereo_interleavement().is_lllrr());
}

#[test]
fn to_channel_data_lrlr_alternates() {
    let interleaved = vec![1i16, -1, 2, -2, 3, -3];
    let (left, right) = ChannelInterleavement::LRLR.to_channel_data(&interleaved);
    assert_eq!(left, vec![1, 2, 3]);
    assert_eq!(right, vec![-1, -2, -3]);
}

#[test]
fn to_channel_data_llrr_splits_in_half() {
    let interleaved = vec![1i16, 2, 3, -1, -2, -3];
    let (left, right) = ChannelInterleavement::LLRR.to_channel_data(&interleaved);
    assert_eq!(left, vec![1, 2, 3]);
    assert_eq!(right, vec![-1, -2, -3]);

    // odd length: the middle element goes to the right half
    let interleaved = vec![1i16, 2, 3];
    let (left, right) = ChannelInterleavement::LLRR.to_channel_data(&interleaved);
    assert_eq!(left, vec![1]);
    assert_eq!(right, vec![2, 3]);
}

#[test]
fn str_le_is_lexicographic() {
    assert!(str_le("", ""));
    assert!(str_le("", "a"));
    assert!(!str_le("a", ""));
    assert!(str_le("abc", "abd"));
    assert!(!str_le("abd", "abc"));
    assert!(str_le("ab", "abc"));
    assert!(!str_le("abc", "ab"));
    assert!(str_le("same", "same"));
}

/// Device list order: sorting puts names into non-decreasing lexicographic
/// order and keeps every entry.
#[test]
fn sort_by_name_orders_device_listing() {
    let devs: Vec<(String, u32)> = vec![
        ("pulse".to_string(), 0),
        ("default".to_string(), 1),
        ("hw:CARD=PCH".to_string(), 2),
        ("default".to_string(), 3),
        ("alsa".to_string(), 4),
    ];
    let sorted = sort_by_name(devs);
    let names: Vec<&str> = sorted.iter().map(|(n, _)| n.as_str()).collect();
    assert_eq!(
        names,
        vec!["alsa", "default", "default", "hw:CARD=PCH", "pulse"]
    );
    // every entry is kept: the two equal names keep both payloads
    let mut default_payloads: Vec<u32> = sorted
        .iter()
        .filter(|(n, _)| n == "default")
        .map(|(_, d)| *d)
        .collect();
    default_payloads.sort();
    assert_eq!(default_payloads, vec![1, 3]);
}
