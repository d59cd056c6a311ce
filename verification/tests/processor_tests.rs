use rust_audio_engine::processor::{
    band_frequency, convolver_layout, interleave, next_chunk_len, update_overlap, BiquadSection,
    ConvolverLayout, Equalizer, NoiseShaper, NoiseTaps, ResampleError, Resampler, EQ_BANDS,
    MAX_IR_FRAMES,
};

fn flat() -> [BiquadSection; 10] {
    let mut out = [BiquadSection::from_coefficients(0, 0, 0, 0, 0); 10];
    for (i, s) in out.iter_mut().enumerate() {
        *s = BiquadSection::from_coefficients(100 + i as u64, 200, 300, 400, 500);
    }
    out
}

#[test]
fn resampler_refuses_invalid_arguments() {
    assert_eq!(Resampler::new(0, 44100, 48000).check_input(0), Err(ResampleError::InvalidArgument));
    assert_eq!(Resampler::new(2, 0, 48000).check_input(4), Err(ResampleError::InvalidArgument));
    assert_eq!(Resampler::new(2, 44100, 0).check_input(4), Err(ResampleError::InvalidArgument));
    assert_eq!(Resampler::new(2, 44100, 48000).check_input(5), Err(ResampleError::InvalidArgument));
    assert_eq!(Resampler::new(2, 44100, 48000).check_input(6), Ok(()));
    assert_eq!(Resampler::new(3, 44100, 48000).check_input(0), Ok(()));
}

#[test]
fn equal_rates_pass_the_input_on_untouched() {
    let input: Vec<u64> = vec![0.1f64.to_bits(), f64::NAN.to_bits(), (-0.0f64).to_bits(), 7];
    let same = Resampler::new(2, 48000, 48000);
    assert!(same.is_passthrough());
    assert_eq!(same.passthrough(&input), Some(input.clone()));
    let other = Resampler::new(2, 44100, 48000);
    assert!(!other.is_passthrough());
    assert_eq!(other.passthrough(&input), None);
}

#[test]
fn channels_are_split_and_woven_back() {
    let r = Resampler::new(3, 44100, 48000);
    let input: Vec<u64> = (0..12).collect();
    let planes = r.deinterleave(&input).unwrap();
    assert_eq!(planes, vec![vec![0, 3, 6, 9], vec![1, 4, 7, 10], vec![2, 5, 8, 11]]);
    assert_eq!(interleave(&planes), Some(input));
    assert_eq!(r.deinterleave(&[1, 2, 3, 4]), Err(ResampleError::InvalidArgument));
    assert_eq!(Resampler::new(0, 1, 1).deinterleave(&[]), Err(ResampleError::InvalidArgument));
    assert_eq!(r.deinterleave(&[]).unwrap(), vec![Vec::<u64>::new(); 3]);
}

#[test]
fn weaving_pads_short_channels_with_silence() {
    let planes = vec![vec![1u64, 2, 3], vec![10, 20]];
    assert_eq!(interleave(&planes), Some(vec![1, 10, 2, 20, 3, 0]));
    let longer = vec![vec![1u64], vec![10, 20, 30]];
    assert_eq!(interleave(&longer), Some(vec![1, 10]));
    assert_eq!(interleave(&Vec::new()), Some(Vec::new()));
}

#[test]
fn bands_sit_at_their_centre_frequencies() {
    let expected = [31, 62, 125, 250, 500, 1000, 2000, 4000, 8000, 16000];
    for (i, hz) in expected.iter().enumerate() {
        assert_eq!(band_frequency(i), Some(*hz));
    }
    assert_eq!(band_frequency(10), None);
    assert_eq!(band_frequency(usize::MAX), None);
    assert_eq!(EQ_BANDS, 10);
}

#[test]
fn new_equalizer_is_off_and_silent() {
    let eq = Equalizer::new(2, &flat()).unwrap();
    assert!(!eq.is_enabled());
    for ch in 0..2 {
        for b in 0..10 {
            let s = eq.section(ch, b).unwrap();
            assert_eq!(s, BiquadSection { b0: 100 + b as u64, b1: 200, b2: 300, a1: 400, a2: 500, z1: 0, z2: 0 });
        }
    }
    assert_eq!(eq.section(2, 0), None);
    assert_eq!(eq.section(0, 10), None);
    assert!(Equalizer::new(usize::MAX, &flat()).is_none());
    assert!(Equalizer::new(0, &flat()).unwrap().section(0, 0).is_none());
}

#[test]
fn gain_change_keeps_the_history() {
    let mut eq = Equalizer::new(2, &flat()).unwrap();
    eq.store_history(0, 3, 11, 12);
    eq.store_history(1, 3, 21, 22);
    eq.store_history(1, 4, 31, 32);
    let tuned = BiquadSection { b0: 1, b1: 2, b2: 3, a1: 4, a2: 5, z1: 99, z2: 98 };
    eq.set_band(3, tuned);
    assert_eq!(eq.section(0, 3), Some(BiquadSection { z1: 11, z2: 12, ..tuned }));
    assert_eq!(eq.section(1, 3), Some(BiquadSection { z1: 21, z2: 22, ..tuned }));
    assert_eq!(eq.section(1, 4).unwrap().z1, 31);
    assert_eq!(eq.section(1, 4).unwrap().b0, 104);
    assert_eq!(eq.section(0, 2).unwrap().b0, 102);
    let before: Vec<_> = (0..10).map(|b| eq.section(0, b)).collect();
    eq.set_band(10, tuned);
    let after: Vec<_> = (0..10).map(|b| eq.section(0, b)).collect();
    assert_eq!(before, after);
}

#[test]
fn equalizer_reset_clears_history_only() {
    let mut eq = Equalizer::new(1, &flat()).unwrap();
    eq.set_enabled(true);
    eq.store_history(0, 0, 5, 6);
    eq.store_history(0, 9, 7, 8);
    eq.store_history(3, 0, 1, 1);
    eq.store_history(0, 12, 1, 1);
    eq.reset();
    assert!(eq.is_enabled());
    for b in 0..10 {
        let s = eq.section(0, b).unwrap();
        assert_eq!((s.z1, s.z2), (0, 0));
        assert_eq!(s.b0, 100 + b as u64);
    }
    let mut s = BiquadSection { b0: 1, b1: 2, b2: 3, a1: 4, a2: 5, z1: 6, z2: 7 };
    s.reset();
    assert_eq!(s, BiquadSection { b0: 1, b1: 2, b2: 3, a1: 4, a2: 5, z1: 0, z2: 0 });
}

#[test]
fn noise_shaper_picks_its_filter_by_rate() {
    assert_eq!(NoiseShaper::new(2, 44100, 24).unwrap().taps(), NoiseTaps::Aggressive);
    assert_eq!(NoiseShaper::new(2, 48000, 24).unwrap().taps(), NoiseTaps::Aggressive);
    assert_eq!(NoiseShaper::new(2, 49999, 24).unwrap().taps(), NoiseTaps::Aggressive);
    assert_eq!(NoiseShaper::new(2, 50000, 24).unwrap().taps(), NoiseTaps::Stable);
    assert_eq!(NoiseShaper::new(2, 192000, 24).unwrap().taps(), NoiseTaps::Stable);
    assert!(NoiseShaper::new(usize::MAX, 44100, 24).is_none());
}

#[test]
fn noise_shaper_starts_on_and_silent() {
    let mut ns = NoiseShaper::new(2, 44100, 24).unwrap();
    assert!(ns.is_enabled());
    assert_eq!(ns.history(0), Some([0; 5]));
    assert_eq!(ns.history(1), Some([0; 5]));
    assert_eq!(ns.history(2), None);
    ns.set_enabled(false);
    assert!(!ns.is_enabled());
}

#[test]
fn noise_shaper_scale_is_a_power_of_two() {
    assert_eq!(NoiseShaper::new(1, 44100, 24).unwrap().scale(), Some(8_388_608));
    assert_eq!(NoiseShaper::new(1, 44100, 16).unwrap().scale(), Some(32_768));
    assert_eq!(NoiseShaper::new(1, 44100, 1).unwrap().scale(), Some(1));
    assert_eq!(NoiseShaper::new(1, 44100, 64).unwrap().scale(), Some(1u64 << 63));
    assert_eq!(NoiseShaper::new(1, 44100, 0).unwrap().scale(), None);
    assert_eq!(NoiseShaper::new(1, 44100, 65).unwrap().scale(), None);
}

#[test]
fn error_history_shifts_per_channel() {
    let mut ns = NoiseShaper::new(2, 44100, 24).unwrap();
    for e in 1..=6u64 {
        ns.record_error(1, e);
    }
    assert_eq!(ns.history(1), Some([6, 5, 4, 3, 2]));
    assert_eq!(ns.history(0), Some([0; 5]));
    ns.record_error(0, 9);
    assert_eq!(ns.history(0), Some([9, 0, 0, 0, 0]));
    ns.record_error(2, 1);
    assert_eq!(ns.history(0), Some([9, 0, 0, 0, 0]));
    assert_eq!(ns.history(1), Some([6, 5, 4, 3, 2]));
}

#[test]
fn convolver_blocks_are_the_smallest_power_of_two() {
    assert_eq!(convolver_layout(0), None);
    assert_eq!(
        convolver_layout(1),
        Some(ConvolverLayout { fft_size: 2, ir_len: 1, step_size: 2, overlap: 0 })
    );
    assert_eq!(
        convolver_layout(3),
        Some(ConvolverLayout { fft_size: 8, ir_len: 3, step_size: 6, overlap: 2 })
    );
    assert_eq!(
        convolver_layout(4),
        Some(ConvolverLayout { fft_size: 8, ir_len: 4, step_size: 5, overlap: 3 })
    );
    assert_eq!(
        convolver_layout(5),
        Some(ConvolverLayout { fft_size: 16, ir_len: 5, step_size: 12, overlap: 4 })
    );
    assert_eq!(
        convolver_layout(16384),
        Some(ConvolverLayout { fft_size: 32768, ir_len: 16384, step_size: 16385, overlap: 16383 })
    );
    assert_eq!(convolver_layout(MAX_IR_FRAMES + 1), None);
    assert!(convolver_layout(MAX_IR_FRAMES).is_some());
}

#[test]
fn blocks_take_a_full_step_or_the_rest() {
    assert_eq!(next_chunk_len(6, 20, 0), 6);
    assert_eq!(next_chunk_len(6, 20, 12), 6);
    assert_eq!(next_chunk_len(6, 20, 18), 2);
    assert_eq!(next_chunk_len(6, 20, 20), 0);
    assert_eq!(next_chunk_len(6, 20, 25), 0);
}

#[test]
fn overlap_keeps_the_last_input_frames() {
    let mut tail = vec![1u64, 2, 3];
    update_overlap(&mut tail, &[4, 5, 6, 7, 8]);
    assert_eq!(tail, vec![6, 7, 8]);
    update_overlap(&mut tail, &[9]);
    assert_eq!(tail, vec![7, 8, 9]);
    update_overlap(&mut tail, &[10, 11, 12]);
    assert_eq!(tail, vec![10, 11, 12]);
    update_overlap(&mut tail, &[]);
    assert_eq!(tail, vec![10, 11, 12]);
    let mut none: Vec<u64> = Vec::new();
    update_overlap(&mut none, &[1, 2]);
    assert!(none.is_empty());
}
