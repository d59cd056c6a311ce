use rust_audio_engine::player::{
    block_samples, bytes_equal, choose_target_rate, drain_leftover, install_track,
    select_stream_rate, spectrum_span, stash_overflow, AudioCommand, AudioDeviceInfo,
    BuildAttempt, BuildOutcome, FrameSpan, MonitorStep, PlayerState, RateRange, SharedState,
    SourceBlock, StreamAction, DITHER_BITS, FALLBACK_RATE, READ_CAP_FRAMES,
};
use rust_audio_engine::processor::{BiquadSection, NoiseTaps, Resampler};
use rust_audio_engine::wasapi_output::{WasapiSharedState, WasapiState};

fn loaded(total_frames: u64, state: PlayerState) -> SharedState {
    let mut s = SharedState::new();
    s.load(total_frames * 2, 48000, 2);
    s.state = state;
    s
}

fn flat_sections() -> [BiquadSection; 10] {
    let mut out = [BiquadSection::from_coefficients(0, 0, 0, 0, 0); 10];
    for (i, s) in out.iter_mut().enumerate() {
        *s = BiquadSection::from_coefficients(
            1.0f64.to_bits(),
            (i as f64).to_bits(),
            0.25f64.to_bits(),
            (-0.5f64).to_bits(),
            0.125f64.to_bits(),
        );
    }
    out
}

#[test]
fn new_player_is_stopped_and_empty() {
    let s = SharedState::new();
    assert_eq!(s.state, PlayerState::Stopped);
    assert_eq!(s.position_frames, 0);
    assert_eq!(s.sample_rate, 44100);
    assert_eq!(s.channels, 2);
    assert_eq!(s.total_frames, 0);
    assert!(!s.exclusive_mode);
}

#[test]
fn stopped_player_follows_the_command_table() {
    let mut s = loaded(1000, PlayerState::Stopped);
    assert_eq!(s.handle_command(AudioCommand::Pause), StreamAction::Nothing);
    assert_eq!(s.state, PlayerState::Stopped);
    assert_eq!(s.handle_command(AudioCommand::Stop), StreamAction::Nothing);
    assert_eq!(s.state, PlayerState::Stopped);
    assert_eq!(s.handle_command(AudioCommand::Play), StreamAction::BuildStream);
    assert_eq!(s.state, PlayerState::Stopped);
    assert_eq!(s.on_stream_build(BuildAttempt::Negotiated, true, true), BuildOutcome::Started);
    assert_eq!(s.state, PlayerState::Playing);
}

#[test]
fn playing_player_follows_the_command_table() {
    let mut s = loaded(1000, PlayerState::Playing);
    s.position_frames = 400;
    assert_eq!(s.handle_command(AudioCommand::Play), StreamAction::Nothing);
    assert_eq!(s.state, PlayerState::Playing);
    assert_eq!(s.handle_command(AudioCommand::Pause), StreamAction::PauseStream);
    assert_eq!(s.state, PlayerState::Paused);
    assert_eq!(s.position_frames, 400);
    let mut s = loaded(1000, PlayerState::Playing);
    s.position_frames = 400;
    assert_eq!(s.handle_command(AudioCommand::Stop), StreamAction::DropStream);
    assert_eq!(s.state, PlayerState::Stopped);
    assert_eq!(s.position_frames, 0);
}

#[test]
fn paused_player_follows_the_command_table() {
    let mut s = loaded(1000, PlayerState::Paused);
    s.position_frames = 10;
    assert_eq!(s.handle_command(AudioCommand::Pause), StreamAction::Nothing);
    assert_eq!(s.state, PlayerState::Paused);
    assert_eq!(s.handle_command(AudioCommand::Play), StreamAction::ResumeStream);
    assert_eq!(s.state, PlayerState::Playing);
    let mut s = loaded(1000, PlayerState::Paused);
    s.position_frames = 10;
    assert_eq!(s.handle_command(AudioCommand::Stop), StreamAction::DropStream);
    assert_eq!(s.state, PlayerState::Stopped);
    assert_eq!(s.position_frames, 0);
}

#[test]
fn shutdown_exits_in_every_state() {
    for st in [PlayerState::Stopped, PlayerState::Playing, PlayerState::Paused] {
        let mut s = loaded(10, st);
        let before = s;
        assert_eq!(s.handle_command(AudioCommand::Shutdown), StreamAction::Exit);
        assert_eq!(s, before);
    }
}

#[test]
fn seek_is_clamped_and_stored_in_every_state() {
    for st in [PlayerState::Stopped, PlayerState::Playing, PlayerState::Paused] {
        let mut s = loaded(1000, st);
        assert_eq!(s.handle_command(AudioCommand::Seek(250)), StreamAction::Nothing);
        assert_eq!(s.position_frames, 250);
        assert_eq!(s.state, st);
        s.handle_command(AudioCommand::Seek(1000));
        assert_eq!(s.position_frames, 1000);
        s.handle_command(AudioCommand::Seek(u64::MAX));
        assert_eq!(s.position_frames, 1000);
    }
}

#[test]
fn play_without_channels_does_nothing() {
    let mut s = SharedState::new();
    s.channels = 0;
    assert_eq!(s.handle_command(AudioCommand::Play), StreamAction::Nothing);
    assert_eq!(s.state, PlayerState::Stopped);
}

#[test]
fn play_in_exclusive_mode_hands_over_to_the_exclusive_backend() {
    let mut s = loaded(10, PlayerState::Stopped);
    s.exclusive_mode = true;
    assert_eq!(s.handle_command(AudioCommand::Play), StreamAction::StartExclusive);
    s.state = PlayerState::Paused;
    assert_eq!(s.handle_command(AudioCommand::Play), StreamAction::ResumeStream);
}

#[test]
fn position_stays_inside_the_track_under_any_command_sequence() {
    let cmds = [
        AudioCommand::Seek(5000),
        AudioCommand::Play,
        AudioCommand::Seek(7),
        AudioCommand::Pause,
        AudioCommand::Seek(u64::MAX),
        AudioCommand::Play,
        AudioCommand::Stop,
        AudioCommand::Seek(999),
        AudioCommand::Seek(1001),
    ];
    let mut s = loaded(1000, PlayerState::Stopped);
    for c in cmds {
        s.handle_command(c);
        assert!(s.position_frames <= s.total_frames);
        let b = s.advance(300);
        assert!(b.frames <= 300);
        assert!(s.position_frames <= s.total_frames);
    }
}

#[test]
fn load_counts_whole_frames_and_rewinds() {
    let mut s = SharedState::new();
    s.position_frames = 0;
    s.exclusive_mode = true;
    s.state = PlayerState::Playing;
    s.load(1001, 96000, 2);
    assert_eq!(s.total_frames, 500);
    assert_eq!(s.position_frames, 0);
    assert_eq!(s.sample_rate, 96000);
    assert_eq!(s.channels, 2);
    assert_eq!(s.state, PlayerState::Stopped);
    assert!(s.exclusive_mode);
}

#[test]
fn advance_grants_what_is_wanted_capped_and_left() {
    let mut s = loaded(10000, PlayerState::Playing);
    assert_eq!(s.advance(512), SourceBlock { start_frame: 0, frames: 512 });
    assert_eq!(s.position_frames, 512);
    assert_eq!(s.advance(100000), SourceBlock { start_frame: 512, frames: READ_CAP_FRAMES });
    assert_eq!(s.position_frames, 512 + 4096);
    s.position_frames = 9990;
    assert_eq!(s.advance(512), SourceBlock { start_frame: 9990, frames: 10 });
    assert_eq!(s.position_frames, 10000);
    assert_eq!(s.advance(512), SourceBlock { start_frame: 10000, frames: 0 });
    assert_eq!(s.position_frames, 10000);
}

#[test]
fn exhausted_track_stops_a_playing_player() {
    let mut s = loaded(100, PlayerState::Playing);
    s.position_frames = 100;
    assert!(!s.finish_if_exhausted(3));
    assert_eq!(s.state, PlayerState::Playing);
    assert!(s.finish_if_exhausted(0));
    assert_eq!(s.state, PlayerState::Stopped);
    let mut p = loaded(100, PlayerState::Paused);
    p.position_frames = 100;
    assert!(p.finish_if_exhausted(0));
    assert_eq!(p.state, PlayerState::Paused);
    let mut q = loaded(100, PlayerState::Playing);
    q.position_frames = 99;
    assert!(!q.finish_if_exhausted(0));
    assert_eq!(q.state, PlayerState::Playing);
}

#[test]
fn failed_stream_build_is_retried_exactly_once() {
    let mut s = loaded(10, PlayerState::Stopped);
    assert_eq!(
        s.on_stream_build(BuildAttempt::Negotiated, false, true),
        BuildOutcome::RetryWithDefault
    );
    assert_eq!(s.state, PlayerState::Stopped);
    assert_eq!(s.on_stream_build(BuildAttempt::DeviceDefault, false, true), BuildOutcome::Failed);
    assert_eq!(s.state, PlayerState::Stopped);
    let mut t = loaded(10, PlayerState::Stopped);
    assert_eq!(t.on_stream_build(BuildAttempt::Negotiated, false, false), BuildOutcome::Failed);
    let mut u = loaded(10, PlayerState::Stopped);
    u.on_stream_build(BuildAttempt::Negotiated, false, true);
    assert_eq!(u.on_stream_build(BuildAttempt::DeviceDefault, true, true), BuildOutcome::Started);
    assert_eq!(u.state, PlayerState::Playing);
}

#[test]
fn stream_rate_prefers_the_requested_rate() {
    let configs = vec![
        RateRange { channels: 2, min_rate: 44100, max_rate: 48000 },
        RateRange { channels: 2, min_rate: 88200, max_rate: 192000 },
        RateRange { channels: 6, min_rate: 8000, max_rate: 384000 },
    ];
    assert_eq!(select_stream_rate(&configs, 2, 96000, Some(48000)), (96000, true));
    assert_eq!(select_stream_rate(&configs, 2, 44100, None), (44100, true));
}

#[test]
fn stream_rate_falls_back_to_the_device_maximum() {
    let configs = vec![
        RateRange { channels: 2, min_rate: 44100, max_rate: 48000 },
        RateRange { channels: 2, min_rate: 88200, max_rate: 96000 },
        RateRange { channels: 6, min_rate: 8000, max_rate: 384000 },
    ];
    assert_eq!(select_stream_rate(&configs, 2, 192000, Some(44100)), (96000, false));
    assert_eq!(select_stream_rate(&configs, 2, 60000, Some(44100)), (96000, false));
}

#[test]
fn stream_rate_falls_back_to_the_device_default() {
    let configs = vec![RateRange { channels: 6, min_rate: 8000, max_rate: 384000 }];
    assert_eq!(select_stream_rate(&configs, 2, 96000, Some(44100)), (44100, false));
    assert_eq!(select_stream_rate(&configs, 2, 96000, None), (FALLBACK_RATE, false));
    assert_eq!(select_stream_rate(&Vec::new(), 2, 96000, None), (48000, false));
}

#[test]
fn target_rate_takes_the_first_that_is_set() {
    assert_eq!(choose_target_rate(Some(96000), Some(88200), Some(48000), 44100), 96000);
    assert_eq!(choose_target_rate(None, Some(88200), Some(48000), 44100), 88200);
    assert_eq!(choose_target_rate(None, None, Some(48000), 44100), 48000);
    assert_eq!(choose_target_rate(None, None, None, 44100), 44100);
}

#[test]
fn device_is_labelled_with_its_host() {
    let d = AudioDeviceInfo::describe(3, "Speakers", "Wasapi", Some("Speakers"), Some(48000));
    assert_eq!(d.id, 3);
    assert_eq!(d.name, "Speakers [Wasapi]");
    assert!(d.is_default);
    assert_eq!(d.sample_rate, Some(48000));
    let e = AudioDeviceInfo::describe(4, "Headset", "Wasapi", Some("Speakers"), None);
    assert_eq!(e.name, "Headset [Wasapi]");
    assert!(!e.is_default);
    let f = AudioDeviceInfo::describe(0, "Headset", "Alsa", None, None);
    assert!(!f.is_default);
}

#[test]
fn byte_strings_compare_by_content() {
    assert!(bytes_equal(b"abc", b"abc"));
    assert!(!bytes_equal(b"abc", b"abd"));
    assert!(!bytes_equal(b"abc", b"ab"));
    assert!(bytes_equal(b"", b""));
}

#[test]
fn exclusive_backend_is_mirrored() {
    let mut s = loaded(1000, PlayerState::Playing);
    let mut b = WasapiSharedState::new();
    b.load(4000, 96000, 2);
    b.state = WasapiState::Playing;
    b.position_frames = 700;
    assert_eq!(s.mirror_exclusive(&b), MonitorStep::Continue);
    assert_eq!(s.position_frames, 700);
    assert_eq!(s.total_frames, 2000);
    assert_eq!(s.sample_rate, 96000);
    assert_eq!(s.state, PlayerState::Playing);
    b.state = WasapiState::Paused;
    assert_eq!(s.mirror_exclusive(&b), MonitorStep::Continue);
    assert_eq!(s.state, PlayerState::Paused);
    b.state = WasapiState::Stopped;
    b.position_frames = 2000;
    assert_eq!(s.mirror_exclusive(&b), MonitorStep::Finished);
    assert_eq!(s.state, PlayerState::Stopped);
    assert_eq!(s.position_frames, 2000);
}

#[test]
fn backend_that_has_not_started_keeps_the_player_state() {
    let mut s = loaded(1000, PlayerState::Playing);
    let mut b = WasapiSharedState::new();
    b.load(2000, 48000, 2);
    assert_eq!(s.mirror_exclusive(&b), MonitorStep::Continue);
    assert_eq!(s.state, PlayerState::Playing);
    assert_eq!(s.position_frames, 0);
}

#[test]
fn mirrored_position_is_kept_inside_the_track() {
    let mut s = loaded(1000, PlayerState::Playing);
    let mut b = WasapiSharedState::new();
    b.load(200, 48000, 2);
    b.state = WasapiState::Playing;
    b.position_frames = 150;
    s.mirror_exclusive(&b);
    assert_eq!(s.position_frames, 100);
    assert!(s.position_frames <= s.total_frames);
}

#[test]
fn leftover_is_drained_oldest_first() {
    let mut q = vec![1u64, 2, 3, 4, 5];
    assert_eq!(drain_leftover(&mut q, 2), vec![1, 2]);
    assert_eq!(q, vec![3, 4, 5]);
    assert_eq!(drain_leftover(&mut q, 10), vec![3, 4, 5]);
    assert!(q.is_empty());
    assert_eq!(drain_leftover(&mut q, 10), Vec::<u64>::new());
    let mut r = vec![7u64];
    assert_eq!(drain_leftover(&mut r, 0), Vec::<u64>::new());
    assert_eq!(r, vec![7]);
}

#[test]
fn overflow_joins_the_end_of_the_queue() {
    let mut q = vec![9u64];
    assert_eq!(stash_overflow(&mut q, &[1, 2, 3, 4], 3), vec![1, 2, 3]);
    assert_eq!(q, vec![9, 4]);
    assert_eq!(stash_overflow(&mut q, &[5, 6], 8), vec![5, 6]);
    assert_eq!(q, vec![9, 4]);
    assert_eq!(stash_overflow(&mut q, &[7, 8], 0), Vec::<u64>::new());
    assert_eq!(q, vec![9, 4, 7, 8]);
}

#[test]
fn every_load_builds_silent_processors() {
    let mut s = SharedState::new();
    s.position_frames = 0;
    let flat = flat_sections();
    let p = install_track(&mut s, 96000 * 2, 44100, 2, &flat).unwrap();
    assert_eq!(s.total_frames, 96000);
    assert_eq!(s.position_frames, 0);
    assert_eq!(s.state, PlayerState::Stopped);
    assert!(!p.eq.is_enabled());
    for ch in 0..2 {
        for b in 0..10 {
            let sec = p.eq.section(ch, b).unwrap();
            assert_eq!(sec.z1, 0);
            assert_eq!(sec.z2, 0);
            assert_eq!(sec.b1, (b as f64).to_bits());
        }
        assert_eq!(p.noise_shaper.history(ch), Some([0u64; 5]));
    }
    assert!(p.noise_shaper.is_enabled());
    assert_eq!(p.noise_shaper.taps(), NoiseTaps::Aggressive);
    assert_eq!(p.noise_shaper.scale(), Some(1u64 << (DITHER_BITS - 1)));
    let q = install_track(&mut s, 10, 96000, 1, &flat).unwrap();
    assert_eq!(q.noise_shaper.taps(), NoiseTaps::Stable);
    assert_eq!(s.total_frames, 10);
}

#[test]
fn reload_after_use_clears_processor_history() {
    let mut s = SharedState::new();
    let flat = flat_sections();
    let mut p = install_track(&mut s, 2000, 48000, 2, &flat).unwrap();
    p.eq.store_history(1, 4, 0.75f64.to_bits(), 0.5f64.to_bits());
    p.noise_shaper.record_error(0, 0.25f64.to_bits());
    assert_ne!(p.eq.section(1, 4).unwrap().z1, 0);
    let fresh = install_track(&mut s, 2000, 48000, 2, &flat).unwrap();
    assert_eq!(fresh.eq.section(1, 4).unwrap().z1, 0);
    assert_eq!(fresh.eq.section(1, 4).unwrap().z2, 0);
    assert_eq!(fresh.noise_shaper.history(0), Some([0u64; 5]));
}

#[test]
fn seek_during_playback_lands_within_one_buffer() {
    let rate: u64 = 48000;
    let buffer: u64 = 512;
    let mut s = SharedState::new();
    s.load(60 * rate * 2, 48000, 2);
    assert_eq!(s.handle_command(AudioCommand::Play), StreamAction::BuildStream);
    s.on_stream_build(BuildAttempt::Negotiated, true, true);
    while s.position_frames < 5 * rate {
        s.advance(buffer);
    }
    s.handle_command(AudioCommand::Seek(30 * rate));
    assert_eq!(s.position_frames, 30 * rate);
    s.advance(buffer);
    s.advance(buffer);
    assert!(s.position_frames >= 30 * rate);
    assert!(s.position_frames <= 30 * rate + 2 * buffer);
    assert_eq!(s.state, PlayerState::Playing);
}

#[test]
fn bypass_chain_delivers_the_track_bit_for_bit() {
    let rate = 48000usize;
    let frames = rate / 10;
    let mut track: Vec<u64> = Vec::with_capacity(frames * 2);
    for n in 0..frames {
        let x = 0.5 * (2.0 * std::f64::consts::PI * 1000.0 * n as f64 / rate as f64).sin();
        track.push(x.to_bits());
        track.push((-x).to_bits());
    }
    let mut s = SharedState::new();
    s.load(track.len() as u64, 48000, 2);
    s.handle_command(AudioCommand::Play);
    s.on_stream_build(BuildAttempt::Negotiated, true, true);
    let bypass = Resampler::new(2, 48000, 48000);
    let mut leftover: Vec<u64> = Vec::new();
    let mut out: Vec<u64> = Vec::new();
    while !s.finish_if_exhausted(leftover.len()) {
        let room = 480 * 2;
        let mut emitted = drain_leftover(&mut leftover, room);
        let block = s.advance(240);
        let from = block.start_frame as usize * 2;
        let to = from + block.frames as usize * 2;
        let chunk = bypass.passthrough(&track[from..to]).unwrap();
        emitted.extend(stash_overflow(&mut leftover, &chunk, room - emitted.len()));
        out.extend(emitted);
    }
    assert_eq!(out, track);
    assert_eq!(s.position_frames, s.total_frames);
    assert_eq!(s.state, PlayerState::Stopped);
    for (a, b) in out.iter().zip(track.iter()).take(1000) {
        assert_eq!(f64::from_bits(*a).to_bits(), f64::from_bits(*b).to_bits());
    }
}

#[test]
fn block_is_located_in_the_track_buffer() {
    let b = SourceBlock { start_frame: 10, frames: 5 };
    assert_eq!(block_samples(b, 2, 30), Some((20, 30)));
    assert_eq!(block_samples(b, 2, 29), None);
    assert_eq!(block_samples(b, 0, 0), Some((0, 0)));
    assert_eq!(block_samples(SourceBlock { start_frame: 0, frames: 0 }, 2, 0), Some((0, 0)));
    assert_eq!(block_samples(SourceBlock { start_frame: u64::MAX, frames: u64::MAX }, 8, 100), None);
}

#[test]
fn spectrum_is_fed_the_frames_played_since_the_last_look() {
    assert_eq!(spectrum_span(100, 580, 2, 100_000), FrameSpan { first_frame: 100, frames: 480 });
    assert_eq!(spectrum_span(100, 5000, 2, 100_000), FrameSpan { first_frame: 100, frames: 2048 });
    assert_eq!(spectrum_span(100, 5000, 3, 100_000), FrameSpan { first_frame: 100, frames: 1365 });
    assert_eq!(spectrum_span(100, 580, 2, 400), FrameSpan { first_frame: 100, frames: 100 });
    assert_eq!(spectrum_span(100, 580, 2, 150), FrameSpan { first_frame: 100, frames: 0 });
    assert_eq!(spectrum_span(100, 100, 2, 1000), FrameSpan { first_frame: 100, frames: 0 });
    assert_eq!(spectrum_span(100, 50, 2, 1000), FrameSpan { first_frame: 100, frames: 0 });
    assert_eq!(spectrum_span(0, 50, 0, 1000), FrameSpan { first_frame: 0, frames: 0 });
}
