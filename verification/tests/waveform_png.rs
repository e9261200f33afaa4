//! Tests for the static waveform renderer and the PNG output path.

use audio_visualizer::waveform::waveform_static_png_visualize;
use audio_visualizer::ChannelInterleavement;
use audio_visualizer::Channels;

/// If tests create files, they would be stored here.
const TEST_OUT_DIR: &str = "target/test_out";

/// Returns a sine wave as i16 samples, `duration_ms` long at `sampling_rate`.
fn sine_wave_audio_data(frequency: f64, sampling_rate: u32, duration_ms: u32) -> Vec<i16> {
    sine_wave_audio_data_multiple(&[frequency], sampling_rate, duration_ms)
}

/// Returns the normalized sum of several sine waves as i16 samples.
fn sine_wave_audio_data_multiple(
    frequencies: &[f64],
    sampling_rate: u32,
    duration_ms: u32,
) -> Vec<i16> {
    let sample_count = (sampling_rate as u64 * duration_ms as u64 / 1000) as usize;
    (0..sample_count)
        .map(|i| {
            let t = i as f64 / sampling_rate as f64;
            let sum: f64 = frequencies
                .iter()
                .map(|f| (2.0 * std::f64::consts::PI * f * t).sin())
                .sum();
            ((sum / frequencies.len() as f64) * i16::MAX as f64) as i16
        })
        .collect()
}

#[test]
fn visualize_sine_10hz() {
    let frequency = 10_f64;
    let sampling_rate = 44100;
    let duration_ms = 1000;
    // we expect 10 time periods of the sine wav in the time interval
    let audio_signal = sine_wave_audio_data(frequency, sampling_rate, duration_ms);
    let files = waveform_static_png_visualize(
        &audio_signal,
        Channels::Mono,
        TEST_OUT_DIR,
        "sinus-wave-10hz.png",
    );
    assert_eq!(files.len(), 1);
    assert_eq!(files[0].0, "target/test_out/sinus-wave-10hz.png");
}

#[test]
fn visualize_sine_50hz_plus_250hz() {
    let sampling_rate = 44100;
    let duration_ms = 100;
    let sin_audio_sum = sine_wave_audio_data_multiple(
        // 50Hz in 100ms => sin wave will have five time periods
        // 250Hz in 100ms => sin wave will have twenty-five time periods
        &vec![50_f64, 250_f64],
        sampling_rate,
        duration_ms,
    );
    let files = waveform_static_png_visualize(
        &sin_audio_sum,
        Channels::Mono,
        TEST_OUT_DIR,
        "sinus-wave-50hz_plus_250hz.png",
    );
    assert_eq!(files.len(), 1);
    assert_eq!(files[0].0, "target/test_out/sinus-wave-50hz_plus_250hz.png");
}

/// This test works, if it doesn't panic.
#[test]
fn test_no_out_of_bounds_panic() {
    let audio_data = vec![i16::MAX, i16::MIN];
    let files = waveform_static_png_visualize(
        &audio_data,
        Channels::Mono,
        TEST_OUT_DIR,
        "sample_1_waveform-test-out-of-bounds-check.png",
    );
    assert_eq!(files.len(), 1);
}

/// The rendered bytes are a real PNG stream, not the raw pixel bytes.
#[test]
fn waveform_png_bytes_have_png_signature() {
    let audio_data = vec![0i16, 1000, -1000, 20000];
    let files = waveform_static_png_visualize(
        &audio_data,
        Channels::Mono,
        TEST_OUT_DIR,
        "signature-check.png",
    );
    let png = &files[0].1;
    assert_eq!(&png[0..8], &[0x89, b'P', b'N', b'G', 0x0d, 0x0a, 0x1a, 0x0a]);
    // raw 1500 x 200 RGB data would be 900000 bytes of mostly white;
    // the encoding must differ from the raw pixel bytes
    assert_ne!(png.len(), 3 * 1500 * 200);
}

/// Stereo data gives one file per channel, prefixed left_/right_, and the
/// channels are deinterleaved before rendering.
#[test]
fn waveform_stereo_creates_two_prefixed_files() {
    let audio_data = vec![10000i16, -10000, 20000, -20000, 30000, -30000];
    let files = waveform_static_png_visualize(
        &audio_data,
        Channels::Stereo(ChannelInterleavement::LRLR),
        TEST_OUT_DIR,
        "stereo.png",
    );
    assert_eq!(files.len(), 2);
    assert_eq!(files[0].0, "target/test_out/left_stereo.png");
    assert_eq!(files[1].0, "target/test_out/right_stereo.png");

    // the left channel alone, via the mono path, gives the same image bytes
    let left = vec![10000i16, 20000, 30000];
    let left_files =
        waveform_static_png_visualize(&left, Channels::Mono, TEST_OUT_DIR, "stereo.png");
    assert_eq!(files[0].1, left_files[0].1);
    // and the two channels differ
    assert_ne!(files[0].1, files[1].1);
}
