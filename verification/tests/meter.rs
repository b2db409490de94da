use koto_audio::meter::{meter_levels, stereo_peaks};

fn bits(samples: &[f32]) -> Vec<u32> {
    samples.iter().map(|s| s.to_bits()).collect()
}

fn peaks_by_float(samples: &[f32]) -> (f32, f32) {
    let mut left = 0.0f32;
    let mut right = 0.0f32;
    for frame in 0..samples.len() / 2 {
        left = left.max(samples[2 * frame].abs());
        right = right.max(samples[2 * frame + 1].abs());
    }
    (left, right)
}

#[test]
fn each_side_has_its_own_peak() {
    let region = bits(&[0.25, -0.5, -0.75, 0.125, 0.5, 0.25]);
    let (left, right) = stereo_peaks(&region);
    assert_eq!(f32::from_bits(left), 0.75);
    assert_eq!(f32::from_bits(right), 0.5);
}

#[test]
fn a_silent_or_empty_region_peaks_at_silence() {
    assert_eq!(stereo_peaks(&[]), (0, 0));
    assert_eq!(stereo_peaks(&bits(&[0.0, -0.0, 0.0, 0.0])), (0, 0));
    // One sample is no frame.
    assert_eq!(stereo_peaks(&bits(&[0.9])), (0, 0));
}

#[test]
fn a_last_sample_without_partner_counts_for_nothing() {
    let (left, right) = stereo_peaks(&bits(&[0.1, 0.2, 0.9]));
    assert_eq!(f32::from_bits(left), 0.1);
    assert_eq!(f32::from_bits(right), 0.2);
}

#[test]
fn what_is_no_number_leaves_the_peak_alone() {
    let region = bits(&[f32::NAN, 0.5, 0.25, -f32::NAN, -0.125, f32::INFINITY]);
    let (left, right) = stereo_peaks(&region);
    assert_eq!(f32::from_bits(left), 0.25);
    assert_eq!(f32::from_bits(right), f32::INFINITY);
}

#[test]
fn peaks_agree_with_the_numbers() {
    let mut samples: Vec<f32> = Vec::new();
    let mut seed: u32 = 12345;
    for _ in 0..257 {
        seed = seed.wrapping_mul(1664525).wrapping_add(1013904223);
        samples.push((seed >> 8) as f32 / (1u32 << 24) as f32 * 2.0 - 1.0);
    }
    let (left, right) = stereo_peaks(&bits(&samples));
    let expected = peaks_by_float(&samples);
    assert_eq!(f32::from_bits(left), expected.0);
    assert_eq!(f32::from_bits(right), expected.1);
}

#[test]
fn levels_hold_the_peaks_beside_the_given_means() {
    let region = bits(&[-1.0, 0.5, 0.5, -0.25]);
    let levels = meter_levels(&region, 0.75f32.to_bits(), 0.375f32.to_bits());
    assert_eq!(f32::from_bits(levels.peak_left), 1.0);
    assert_eq!(f32::from_bits(levels.peak_right), 0.5);
    assert_eq!(f32::from_bits(levels.rms_left), 0.75);
    assert_eq!(f32::from_bits(levels.rms_right), 0.375);
}
