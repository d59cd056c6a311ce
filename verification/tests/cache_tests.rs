use rust_audio_engine::cache::{
    cache_file_name, cache_key, cache_key_material, cache_location, decode_samples,
    encode_samples, plan_load,
};
use rust_audio_engine::config::{AppConfig, ResampleQuality};
use rust_audio_engine::decoder::AudioInfo;

#[test]
fn key_material_is_path_rate_quality_and_length() {
    let m = cache_key_material("track.flac", 96000, ResampleQuality::High, 1000);
    let mut expected = b"track.flac".to_vec();
    expected.extend_from_slice(&[0x00, 0x77, 0x01, 0x00]);
    expected.push(2);
    expected.extend_from_slice(&[0xe8, 0x03, 0, 0, 0, 0, 0, 0]);
    assert_eq!(m, expected);
}

#[test]
fn cache_key_is_the_hex_digest_of_the_material() {
    assert_eq!(
        cache_key("track.flac", 96000, ResampleQuality::High, 1000),
        "8077089f3a2be593efef0182a8b829759be24bdef99e0bec2b1121e07c5701ce"
    );
    assert_eq!(
        cache_key("/music/a.wav", 48000, ResampleQuality::UltraHigh, 882_000),
        "4318665a15a1499a13b47434e2dc46ab887fb0e0b95c0cc6f8fd53f884b69fbc"
    );
}

#[test]
fn cache_key_depends_on_every_part() {
    let base = cache_key("a", 48000, ResampleQuality::High, 10);
    assert_eq!(base.len(), 64);
    assert!(base.chars().all(|c| c.is_ascii_digit() || ('a'..='f').contains(&c)));
    assert_eq!(base, cache_key("a", 48000, ResampleQuality::High, 10));
    assert_ne!(base, cache_key("b", 48000, ResampleQuality::High, 10));
    assert_ne!(base, cache_key("a", 44100, ResampleQuality::High, 10));
    assert_ne!(base, cache_key("a", 48000, ResampleQuality::Low, 10));
    assert_ne!(base, cache_key("a", 48000, ResampleQuality::Standard, 10));
    assert_ne!(base, cache_key("a", 48000, ResampleQuality::High, 11));
}

#[test]
fn cache_file_is_named_after_its_key() {
    assert_eq!(cache_file_name(String::from("abc123")), "abc123.bin");
}

#[test]
fn cache_location_follows_the_configuration() {
    let mut config = AppConfig::default();
    assert!(cache_location(&config, "track.flac", 96000, 1000).is_none());
    config.use_cache = true;
    let place = cache_location(&config, "track.flac", 96000, 1000).unwrap();
    assert_eq!(place.dir, "resample_cache");
    assert_eq!(
        place.file_name,
        "8077089f3a2be593efef0182a8b829759be24bdef99e0bec2b1121e07c5701ce.bin"
    );
    config.cache_dir = Some(String::from("/var/cache/engine"));
    config.resample_quality = ResampleQuality::Low;
    let other = cache_location(&config, "track.flac", 96000, 1000).unwrap();
    assert_eq!(other.dir, "/var/cache/engine");
    assert_ne!(other.file_name, place.file_name);
}

#[test]
fn payload_is_little_endian_words() {
    let samples = vec![0.5f64.to_bits(), (-1.0f64).to_bits(), 1u64];
    let bytes = encode_samples(&samples);
    assert_eq!(
        bytes,
        vec![
            0, 0, 0, 0, 0, 0, 0xe0, 0x3f, 0, 0, 0, 0, 0, 0, 0xf0, 0xbf, 1, 0, 0, 0, 0, 0, 0, 0
        ]
    );
    let floats: Vec<u8> = [0.5f64, -1.0f64].iter().flat_map(|s| s.to_le_bytes()).collect();
    assert_eq!(&bytes[..16], &floats[..]);
}

#[test]
fn payload_round_trip_is_exact() {
    let samples: Vec<u64> = (0..1000)
        .map(|n| (0.1 * (n as f64 * 0.37).sin()).to_bits())
        .chain([0u64, u64::MAX, f64::NAN.to_bits(), (-0.0f64).to_bits()])
        .collect();
    let bytes = encode_samples(&samples);
    assert_eq!(bytes.len(), samples.len() * 8);
    assert_eq!(decode_samples(&bytes), Some(samples));
}

#[test]
fn malformed_payload_counts_as_absent() {
    assert_eq!(decode_samples(&Vec::new()), None);
    assert_eq!(decode_samples(&vec![0u8; 7]), None);
    assert_eq!(decode_samples(&vec![0u8; 9]), None);
    assert_eq!(decode_samples(&vec![0u8; 8]), Some(vec![0u64]));
    assert_eq!(
        decode_samples(&vec![1, 2, 3, 4, 5, 6, 7, 8, 0xff, 0, 0, 0, 0, 0, 0, 0]),
        Some(vec![0x0807060504030201, 0xff])
    );
}

#[test]
fn second_load_reads_what_the_first_load_cached() {
    let mut config = AppConfig::default();
    config.use_cache = true;
    let info = AudioInfo { sample_rate: 44100, channels: 2, total_frames: Some(441_000) };
    let first = plan_load(&config, Some(96000), None, info, "trackA.flac");
    assert!(first.need_resample);
    assert!(first.write_cache);
    let resampled: Vec<u64> = (0..4096).map(|n| (n as f64 / 4096.0).to_bits()).collect();
    let stored = encode_samples(&resampled);
    let second = plan_load(&config, Some(96000), None, info, "trackA.flac");
    assert_eq!(
        second.cache.as_ref().unwrap().file_name,
        first.cache.as_ref().unwrap().file_name
    );
    assert_eq!(second.cache.as_ref().unwrap().dir, first.cache.as_ref().unwrap().dir);
    let loaded = decode_samples(&stored).unwrap();
    assert_eq!(loaded, resampled);
    assert_eq!(encode_samples(&loaded), stored);
}

#[test]
fn load_plan_decides_rate_resampling_and_caching() {
    let mut config = AppConfig::default();
    let info = AudioInfo { sample_rate: 44100, channels: 2, total_frames: Some(441_000) };
    let plain = plan_load(&config, None, None, info, "a.flac");
    assert_eq!(plain.target_rate, 44100);
    assert!(!plain.need_resample);
    assert!(plain.cache.is_none());
    assert!(!plain.write_cache);
    assert_eq!(plain.estimated_frames, 441_000);
    let device = plan_load(&config, None, Some(48000), info, "a.flac");
    assert_eq!(device.target_rate, 48000);
    assert!(device.need_resample);
    assert!(!device.write_cache);
    assert_eq!(device.estimated_frames, 480_000);
    config.target_samplerate = Some(192000);
    config.use_cache = true;
    let fixed = plan_load(&config, Some(96000), Some(48000), info, "a.flac");
    assert_eq!(fixed.target_rate, 192000);
    assert!(fixed.write_cache);
    assert_eq!(fixed.estimated_frames, 1_920_000);
    assert_eq!(
        fixed.cache.unwrap().file_name,
        cache_file_name(cache_key("a.flac", 192000, ResampleQuality::High, 882_000))
    );
    config.target_samplerate = Some(44100);
    let same = plan_load(&config, None, None, info, "a.flac");
    assert!(same.cache.is_some());
    assert!(!same.write_cache);
}
