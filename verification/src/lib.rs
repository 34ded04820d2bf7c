//! Verified core of the moodbar generator: option models, render geometry on
//! integers, SVG text building, PNG canvas handling, analysis window
//! scheduling, decode-loop decisions, the native handle registry and error
//! statuses, and CLI decisions.

mod options;
mod text;
mod types;
mod schema;
mod svg;
mod raster;
mod palette;
mod schedule;
mod decode;
mod ffi;
mod cli;

pub use options::{check_fft_size, check_frames_per_color, DetectionMode, NormalizeMode, Theme};
pub use types::{AnalysisDiagnostics, MoodbarError, PngOptions, SvgOptions, SvgShape};
pub use schema::{
    apply_png_patch, apply_svg_patch, parse_hex_color, parse_svg_background, DetectionModeInput,
    NormalizeModeInput, PngOptionsPatch, SvgOptionsPatch, SvgShapeInput, ThemeInput,
};
pub use svg::{gradient_stop_indices, is_split_shape, write_gradient_defs, GradientStop, svg_capacity, write_split_style_block, write_svg_shell};
pub use raster::{decode_png, empty_png, encode_png, fill_column_raw, new_rgba_buffer, DecodedPng};
pub use palette::{analysis_to_raw_rgb_bytes, resolve_band_colors};
pub use schedule::{hop_size, WindowSchedule};
pub use decode::{
    DecodeAction, DecodeDiagnostics, DecodeEvent, DecodeLoop, IoFailure, MixPlan,
    MoodbarDecodeError, PacketAction, PacketEvent,
};
pub use ffi::{
    ffi_status_from_result, png_payload_base64, summary_for, summary_reply_json, AnalysisRegistry, FfiError, LastError,
    MoodbarNativeAnalysisSummary, MoodbarNativeStatus,
};
pub use cli::{
    ensure_can_write, escape_json_string, is_audio_extension, trim_double_quotes, plan_output,
    BatchTally, FileOutcome, NormalizeModeArg, OutputPlan,
};
