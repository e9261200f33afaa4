//! Tests for the sliding-window sample store and the capture path.

use audio_visualizer::capture::stereo_frame_pairs;
use audio_visualizer::store::SampleStore;

fn bits(samples: &[f32]) -> Vec<u32> {
    samples.iter().map(|s| s.to_bits()).collect()
}

fn floats(bits: &[u32]) -> Vec<f32> {
    bits.iter().map(|b| f32::from_bits(*b)).collect()
}

/// Store capacity: construction rounds the requested capacity up to the next
/// power of two and prefills with zeros.
#[test]
fn store_new_rounds_up_and_zero_fills() {
    let store = SampleStore::new(300);
    assert_eq!(store.capacity(), 512);
    assert_eq!(store.len(), 512);
    let snapshot = store.to_vec();
    assert_eq!(snapshot.len(), 512);
    assert!(snapshot.iter().all(|s| *s == 0));
    assert!(snapshot.iter().all(|s| f32::from_bits(*s) == 0.0));

    // five seconds at the common sampling rate
    let store = SampleStore::new(5 * 44100);
    assert_eq!(store.capacity(), 262144);

    let store = SampleStore::new(16);
    assert_eq!(store.capacity(), 16);

    let store = SampleStore::new(0);
    assert_eq!(store.capacity(), 1);
}

/// Sliding-window preservation: appends totalling at most the capacity land
/// at the tail, behind the remaining zero prefill.
#[test]
fn store_extend_within_capacity_keeps_prefix() {
    let mut store = SampleStore::new(8);
    store.extend(&bits(&[0.1, 0.2, 0.3]));
    let snapshot = floats(&store.to_vec());
    assert_eq!(snapshot, vec![0.0, 0.0, 0.0, 0.0, 0.0, 0.1, 0.2, 0.3]);

    store.extend(&bits(&[0.4, 0.5]));
    let snapshot = floats(&store.to_vec());
    assert_eq!(snapshot, vec![0.0, 0.0, 0.0, 0.1, 0.2, 0.3, 0.4, 0.5]);
}

/// Overflow eviction: appends totalling more than the capacity leave exactly
/// the last `capacity` appended samples, in order.
#[test]
fn store_extend_over_capacity_keeps_most_recent() {
    let mut store = SampleStore::new(4);
    store.extend(&bits(&[1.0, 2.0, 3.0, 4.0, 5.0, 6.0]));
    let snapshot = floats(&store.to_vec());
    assert_eq!(snapshot, vec![3.0, 4.0, 5.0, 6.0]);

    let mut store = SampleStore::new(4);
    store.extend(&bits(&[1.0, 2.0]));
    store.extend(&bits(&[3.0, 4.0, 5.0]));
    store.extend(&bits(&[6.0]));
    let snapshot = floats(&store.to_vec());
    assert_eq!(snapshot, vec![3.0, 4.0, 5.0, 6.0]);
}

/// Snapshot immutability: a snapshot is an owned copy and later appends do
/// not change it.
#[test]
fn store_snapshot_unaffected_by_later_appends() {
    let mut store = SampleStore::new(4);
    store.extend(&bits(&[1.0, 2.0]));
    let snapshot = store.to_vec();
    let copy = snapshot.clone();
    store.extend(&bits(&[7.0, 8.0, 9.0]));
    assert_eq!(snapshot, copy);
    assert_ne!(store.to_vec(), snapshot);
}

/// Stereo downmix: appending LR-interleaved frames through the stereo path
/// (pair, average, append) equals appending the per-frame averages through
/// the mono path.
#[test]
fn stereo_path_matches_mono_path_of_averages() {
    let left = vec![0.2f32, -0.4, 0.6, 0.8];
    let right = vec![0.1f32, 0.3, -0.5, 0.7];
    let interleaved: Vec<f32> = left
        .iter()
        .zip(right.iter())
        .flat_map(|(l, r)| [*l, *r])
        .collect();

    // stereo path: pair the interleaved frames, then mix each pair
    let mut stereo_store = SampleStore::new(8);
    let pairs = stereo_frame_pairs(&bits(&interleaved));
    let mixed: Vec<u32> = pairs
        .iter()
        .map(|(l, r)| ((f32::from_bits(*l) + f32::from_bits(*r)) / 2.0).to_bits())
        .collect();
    stereo_store.extend(&mixed);

    // mono path: the averages appended directly
    let mut mono_store = SampleStore::new(8);
    let averages: Vec<u32> = left
        .iter()
        .zip(right.iter())
        .map(|(l, r)| ((l + r) / 2.0).to_bits())
        .collect();
    mono_store.extend(&averages);

    assert_eq!(stereo_store.to_vec(), mono_store.to_vec());
}

/// An odd trailing half frame is dropped by the pairing.
#[test]
fn stereo_frame_pairs_drops_trailing_half_frame() {
    let data = vec![1u32, 2, 3, 4, 5];
    let pairs = stereo_frame_pairs(&data);
    assert_eq!(pairs, vec![(1, 2), (3, 4)]);
}

/// Synthetic sine capture: after feeding a 440 Hz sine at 44100 Hz for two
/// seconds in 1024-sample chunks, the snapshot's most recent second is a
/// continuous sine whose autocorrelation peaks at a lag of one period
/// (44100 / 440, about 100 samples).
#[test]
fn sine_capture_autocorrelation_peaks_at_period() {
    let rate = 44100usize;
    let mut store = SampleStore::new(5 * rate);
    let total = 2 * rate;
    let sine: Vec<f32> = (0..total)
        .map(|i| (2.0 * std::f32::consts::PI * 440.0 * (i as f32) / (rate as f32)).sin())
        .collect();
    for chunk in sine.chunks(1024) {
        store.extend(&bits(chunk));
    }
    let snapshot = floats(&store.to_vec());
    let recent = &snapshot[snapshot.len() - rate..];

    let mut best_lag = 0usize;
    let mut best = f64::MIN;
    for lag in 80..=120usize {
        let mut sum = 0.0f64;
        for i in 0..recent.len() - lag {
            sum += (recent[i] as f64) * (recent[i + lag] as f64);
        }
        if sum > best {
            best = sum;
            best_lag = lag;
        }
    }
    let period = 44100.0f64 / 440.0;
    assert!(
        (best_lag as f64 - period).abs() <= 1.0,
        "autocorrelation peak at lag {best_lag}, expected about {period}"
    );
}
