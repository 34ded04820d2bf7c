use moodbar::{
    ffi_status_from_result, png_payload_base64, summary_for, summary_reply_json, AnalysisDiagnostics,
    AnalysisRegistry, FfiError, IoFailure, LastError, MoodbarDecodeError, MoodbarError,
    MoodbarNativeStatus,
};

fn io_not_found(message: &str) -> MoodbarDecodeError {
    MoodbarDecodeError::Io(IoFailure { not_found: true, description: message.to_string() })
}

fn io_other(message: &str) -> MoodbarDecodeError {
    MoodbarDecodeError::Io(IoFailure { not_found: false, description: message.to_string() })
}

#[test]
fn ffi_guard_success_returns_ok_and_clears_last_error() {
    let mut last = LastError::new();
    let status =
        ffi_status_from_result(&mut last, Err(FfiError::InvalidArgument("bad input".to_string())));
    assert_eq!(status.code(), MoodbarNativeStatus::InvalidArgument.code());
    assert!(!last.last_error_message().is_empty());

    let status = ffi_status_from_result(&mut last, Ok(()));
    assert_eq!(status.code(), MoodbarNativeStatus::Success.code());
    assert!(last.last_error_message().is_empty());
}

#[test]
fn ffi_guard_failure_sets_last_error_and_expected_statuses() {
    let cases = vec![
        (FfiError::InvalidArgument("invalid".to_string()), MoodbarNativeStatus::InvalidArgument),
        (FfiError::NotFound("missing".to_string()), MoodbarNativeStatus::NotFound),
        (FfiError::Decode(MoodbarDecodeError::NoAudioTrack), MoodbarNativeStatus::InvalidArgument),
        (FfiError::Decode(MoodbarDecodeError::EmptyAudio), MoodbarNativeStatus::InvalidArgument),
        (
            FfiError::Decode(MoodbarDecodeError::InvalidOptions("bad".to_string())),
            MoodbarNativeStatus::InvalidArgument,
        ),
        (FfiError::Decode(io_not_found("no file")), MoodbarNativeStatus::NotFound),
        (FfiError::Decode(io_other("disk failure")), MoodbarNativeStatus::Internal),
        (
            FfiError::Analysis(MoodbarError::InvalidOptions("bad render options".to_string())),
            MoodbarNativeStatus::InvalidArgument,
        ),
        (FfiError::Utf8, MoodbarNativeStatus::InvalidArgument),
        (FfiError::Json("invalid json".to_string()), MoodbarNativeStatus::InvalidArgument),
        (FfiError::Poisoned, MoodbarNativeStatus::Internal),
        (FfiError::Panic, MoodbarNativeStatus::Internal),
    ];

    let mut last = LastError::new();
    for (error, expected_status) in cases {
        let status = ffi_status_from_result(&mut last, Err(error));
        assert_eq!(status.code(), expected_status.code());
        assert!(!last.last_error_message().is_empty());
    }
}

#[test]
fn ffi_guard_success_after_failure_clears_previous_error() {
    let mut last = LastError::new();
    let status = ffi_status_from_result(&mut last, Err(FfiError::Json("bad json".to_string())));
    assert_eq!(status.code(), MoodbarNativeStatus::InvalidArgument.code());
    assert!(!last.last_error_message().is_empty());

    let status = ffi_status_from_result(&mut last, Ok(()));
    assert_eq!(status.code(), MoodbarNativeStatus::Success.code());
    assert!(last.last_error_message().is_empty());
}

#[test]
fn panic_failure_maps_to_internal_and_sets_last_error() {
    let mut last = LastError::new();
    let status = ffi_status_from_result(&mut last, Err(FfiError::Panic));
    assert_eq!(status.code(), MoodbarNativeStatus::Internal.code());
    let message = last.last_error_message();
    assert!(message.contains("panic across FFI boundary"));
}

#[test]
fn from_error_maps_variants_to_expected_status() {
    let cases = vec![
        (FfiError::InvalidArgument("bad".to_string()), MoodbarNativeStatus::InvalidArgument),
        (FfiError::NotFound("missing".to_string()), MoodbarNativeStatus::NotFound),
        (FfiError::Decode(MoodbarDecodeError::NoAudioTrack), MoodbarNativeStatus::InvalidArgument),
        (FfiError::Decode(io_not_found("missing")), MoodbarNativeStatus::NotFound),
        (FfiError::Decode(io_other("broken")), MoodbarNativeStatus::Internal),
        (
            FfiError::Analysis(MoodbarError::InvalidOptions("bad".to_string())),
            MoodbarNativeStatus::InvalidArgument,
        ),
        (FfiError::Utf8, MoodbarNativeStatus::InvalidArgument),
        (FfiError::Json("bad".to_string()), MoodbarNativeStatus::InvalidArgument),
        (FfiError::Poisoned, MoodbarNativeStatus::Internal),
        (FfiError::Panic, MoodbarNativeStatus::Internal),
    ];

    for (error, expected) in cases {
        assert_eq!(MoodbarNativeStatus::from_error(&error).code(), expected.code());
    }
}

#[test]
fn status_codes_and_messages() {
    assert_eq!(MoodbarNativeStatus::Success.code(), 0);
    assert_eq!(MoodbarNativeStatus::InvalidArgument.code(), 1);
    assert_eq!(MoodbarNativeStatus::NotFound.code(), 2);
    assert_eq!(MoodbarNativeStatus::Internal.code(), 3);
    assert_eq!(FfiError::InvalidArgument("x".to_string()).message(), "invalid argument: x");
    assert_eq!(FfiError::Decode(io_other("boom")).message(), "I/O error: boom");
    assert_eq!(FfiError::Decode(MoodbarDecodeError::EmptyAudio).message(), "decoded stream has no samples");
    assert_eq!(FfiError::Analysis(MoodbarError::Image("e".to_string())).message(), "image error: e");
    assert_eq!(FfiError::Utf8.message(), "invalid UTF-8 in C string");
    assert_eq!(FfiError::Json("j".to_string()).message(), "invalid options JSON: j");
}

#[test]
fn registry_handles_store_read_and_dispose() {
    let mut registry: AnalysisRegistry<String> = AnalysisRegistry::new();
    let a = registry.store("first".to_string());
    let b = registry.store("second".to_string());
    assert_eq!(a, 1);
    assert_eq!(b, 2);
    assert_eq!(registry.get(a).unwrap(), "first");
    assert_eq!(registry.get(b).unwrap(), "second");
    assert_eq!(registry.free_analysis(a), Ok(()));
    assert_eq!(
        registry.get(a).err(),
        Some(FfiError::NotFound("analysis handle 1 not found".to_string()))
    );
    assert_eq!(
        registry.free_analysis(a),
        Err(FfiError::NotFound("analysis handle 1 not found".to_string()))
    );
    assert_eq!(registry.get(b).unwrap(), "second");
    assert_eq!(registry.store("third".to_string()), 3);
}

#[test]
fn summary_counts() {
    let diag = AnalysisDiagnostics { decode_errors: 2, zero_channel_packets: 0, truncated_frames: 1 };
    let s = summary_for(7, 120, 3, diag);
    assert_eq!((s.handle, s.frame_count, s.channel_count), (7, 120, 3));
    assert_eq!((s.decode_errors, s.zero_channel_packets, s.truncated_frames), (2, 0, 1));
    let big = summary_for(1, (1usize << 32) + 5, 3, AnalysisDiagnostics::default());
    assert_eq!(big.frame_count, 5);
}

#[test]
fn png_payload_is_padded_base64() {
    assert_eq!(png_payload_base64(&b"hello".to_vec()), "aGVsbG8=");
    assert_eq!(png_payload_base64(&vec![0x89, 0x50, 0x4e]), "iVBO");
    assert_eq!(png_payload_base64(&Vec::new()), "");
}

#[test]
fn summary_reply_matches_serde_json_object() {
    let s = summary_for(7, 120, 3, AnalysisDiagnostics::default());
    let text = summary_reply_json(&s);
    assert_eq!(text, "{\"channelCount\":3,\"frameCount\":120,\"handle\":7,\"ok\":true}");
    let mut map = serde_json::Map::new();
    map.insert("ok".to_string(), serde_json::Value::Bool(true));
    map.insert("handle".to_string(), serde_json::Value::from(7u64));
    map.insert("frameCount".to_string(), serde_json::Value::from(120u32));
    map.insert("channelCount".to_string(), serde_json::Value::from(3u32));
    assert_eq!(serde_json::Value::Object(map).to_string(), text);
}
