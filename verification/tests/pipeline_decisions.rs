use moodbar::{
    ensure_can_write, escape_json_string, hop_size, is_audio_extension, BatchTally, DecodeAction,
    DecodeDiagnostics, DecodeEvent, DecodeLoop, MixPlan, MoodbarDecodeError, NormalizeMode,
    NormalizeModeArg, PacketAction, PacketEvent, WindowSchedule, trim_double_quotes, plan_output, FileOutcome, OutputPlan,
};

fn window_starts(chunks: &[usize], fft: usize, hop: usize) -> Vec<usize> {
    let mut schedule = WindowSchedule::new(fft, hop);
    let mut dropped = 0usize;
    let mut starts = Vec::new();
    for &n in chunks {
        schedule.push(n);
        while let Some(start) = schedule.next_window() {
            starts.push(dropped + start);
            assert!(!schedule.compaction_overruns());
            dropped += schedule.compact();
        }
    }
    starts
}

#[test]
fn streaming_and_batch_window_placement_match() {
    let total = 52_920usize;
    let batch = window_starts(&[total], 2048, 1024);
    let mut pieces = vec![257usize; total / 257];
    pieces.push(total % 257);
    let streamed = window_starts(&pieces, 2048, 1024);
    assert_eq!(batch, streamed);
    assert_eq!(batch.len(), (total - 2048) / 1024 + 1);
    for (k, s) in batch.iter().enumerate() {
        assert_eq!(*s, k * 1024);
    }
}

#[test]
fn short_stream_gets_one_padded_window() {
    let mut schedule = WindowSchedule::new(2048, 1024);
    schedule.push(100);
    assert_eq!(schedule.next_window(), None);
    assert_eq!(schedule.tail_window(), Some(100));
    let empty = WindowSchedule::new(2048, 1024);
    assert_eq!(empty.tail_window(), None);
}

#[test]
fn hop_size_widens_for_long_inputs() {
    assert_eq!(hop_size(2048, None, Some(2000)), 1024);
    assert_eq!(hop_size(2048, Some(44_100), Some(2000)), 1024);
    assert_eq!(hop_size(2048, Some(10_000_000), Some(2000)), 5000);
    assert_eq!(hop_size(2048, Some(10_000), Some(0)), 10_000);
    assert_eq!(hop_size(2048, Some(10_000_000), None), 1024);
}

#[test]
fn decode_loop_decisions() {
    let mut l = DecodeLoop::new(3);
    assert_eq!(l.on_packet(PacketEvent::Packet { track_id: 3 }), PacketAction::Decode);
    assert_eq!(l.on_packet(PacketEvent::Packet { track_id: 4 }), PacketAction::Skip);
    assert_eq!(l.on_packet(PacketEvent::EndOfStream), PacketAction::Finish);
    assert_eq!(l.on_packet(PacketEvent::Failed), PacketAction::Abort);

    assert_eq!(l.finish(), Err(MoodbarDecodeError::EmptyAudio));
    assert_eq!(l.on_decoded(DecodeEvent::Corrupt), DecodeAction::Skip);
    assert_eq!(l.on_decoded(DecodeEvent::Decoded { channels: 0, samples: 10 }), DecodeAction::Skip);
    assert_eq!(
        l.on_decoded(DecodeEvent::Decoded { channels: 2, samples: 9 }),
        DecodeAction::Mix { plan: MixPlan::Stereo, frames: 4 }
    );
    assert_eq!(
        l.on_decoded(DecodeEvent::Decoded { channels: 6, samples: 20 }),
        DecodeAction::Mix { plan: MixPlan::Average { channels: 6, used: 2 }, frames: 3 }
    );
    assert_eq!(
        l.on_decoded(DecodeEvent::Decoded { channels: 1, samples: 5 }),
        DecodeAction::Mix { plan: MixPlan::Copy, frames: 5 }
    );
    assert_eq!(l.on_decoded(DecodeEvent::EndOfStream), DecodeAction::Finish);
    assert_eq!(l.on_decoded(DecodeEvent::Failed), DecodeAction::Abort);
    assert_eq!(
        l.finish(),
        Ok(DecodeDiagnostics { decode_errors: 1, zero_channel_packets: 1, truncated_frames: 1 })
    );
}

#[test]
fn decode_errors_display() {
    assert_eq!(MoodbarDecodeError::NoAudioTrack.message(), "no playable audio track found");
    assert_eq!(MoodbarDecodeError::Decode("x".to_string()).message(), "decode error: x");
    assert_eq!(MoodbarDecodeError::InvalidOptions("y".to_string()).message(), "invalid options: y");
}

#[test]
fn cli_write_guard() {
    assert!(ensure_can_write("out.mood", false, false).is_ok());
    assert!(ensure_can_write("out.mood", true, true).is_ok());
    assert_eq!(
        ensure_can_write("out.mood", true, false),
        Err("out.mood exists; pass --force to overwrite".to_string())
    );
}

#[test]
fn cli_audio_extensions() {
    for ext in ["mp3", "OGG", "Flac", "wav", "m4a", "AAC", "opus"] {
        assert!(is_audio_extension(ext));
    }
    for ext in ["", "mp4", "txt", "mood", "wavv"] {
        assert!(!is_audio_extension(ext));
    }
}

#[test]
fn cli_batch_tally_exit_codes() {
    let mut t = BatchTally::new();
    t.record(FileOutcome::Converted);
    t.record(FileOutcome::Converted);
    assert_eq!((t.processed, t.succeeded, t.skipped, t.failed), (2, 2, 0, 0));
    assert_eq!(t.exit_code(), 0);
    t.record(FileOutcome::Failed);
    assert_eq!((t.processed, t.succeeded, t.skipped, t.failed), (3, 2, 0, 1));
    assert_eq!(t.exit_code(), 1);
}

#[test]
fn cli_batch_rerun_skips_up_to_date_outputs() {
    // A second run over two files whose outputs exist and are newer.
    let mut t = BatchTally::new();
    for _ in 0..2 {
        let plan = plan_output(true, true, false);
        assert_eq!(plan, OutputPlan::Skip);
        t.record(FileOutcome::Skipped);
    }
    assert_eq!((t.processed, t.succeeded, t.skipped, t.failed), (2, 0, 2, 0));
    assert_eq!(t.exit_code(), 0);
    assert_eq!(t.processed, t.succeeded + t.skipped + t.failed);
}

#[test]
fn cli_output_plans() {
    assert_eq!(plan_output(false, false, false), OutputPlan::Write);
    assert_eq!(plan_output(false, true, false), OutputPlan::Write);
    assert_eq!(plan_output(true, true, false), OutputPlan::Skip);
    assert_eq!(plan_output(true, false, false), OutputPlan::Refuse);
    assert_eq!(plan_output(true, true, true), OutputPlan::Write);
    assert_eq!(plan_output(true, false, true), OutputPlan::Write);
}

#[test]
fn cli_normalize_arg() {
    assert_eq!(NormalizeModeArg::PerChannelPeak.into_core(), NormalizeMode::PerChannelPeak);
    assert_eq!(NormalizeModeArg::GlobalPeak.into_core(), NormalizeMode::GlobalPeak);
}

#[test]
fn cli_json_escape() {
    assert_eq!(escape_json_string("plain"), "plain");
    assert_eq!(escape_json_string("tab\there"), "tab\\there");
    assert_eq!(escape_json_string("say \"hi\" now"), "say \\\"hi\\\" now");
    // Trailing quotes are trimmed together with the escaped one before them.
    assert_eq!(escape_json_string("end\""), "end\\");
    assert_eq!(escape_json_string("a\\b"), "a\\\\b");
    assert_eq!(escape_json_string("\u{8}\u{c}\n\r"), "\\b\\f\\n\\r");
    assert_eq!(escape_json_string("\u{1}\u{1f}\u{7f}é"), "\\u0001\\u001f\u{7f}é");
}

#[test]
fn cli_trim_double_quotes() {
    assert_eq!(trim_double_quotes("\"\"a\"b\"\""), "a\"b");
    assert_eq!(trim_double_quotes("\"\"\""), "");
    assert_eq!(trim_double_quotes("plain"), "plain");
    assert_eq!(trim_double_quotes(""), "");
}
