use vstd::prelude::*;

use crate::text::str_literal_to_string;

verus! {

/// Non-fatal decoder diagnostics collected during analysis.
#[derive(Debug, Clone, Copy, PartialEq, Eq, Structural)]
pub struct AnalysisDiagnostics {
    pub decode_errors: usize,
    pub zero_channel_packets: usize,
    pub truncated_frames: usize,
}

impl Default for AnalysisDiagnostics {
    fn default() -> (d: AnalysisDiagnostics)
        ensures
            d.decode_errors == 0,
            d.zero_channel_packets == 0,
            d.truncated_frames == 0,
    {
        AnalysisDiagnostics { decode_errors: 0, zero_channel_packets: 0, truncated_frames: 0 }
    }
}

/// SVG output shape presets including split-band layouts.
#[derive(Debug, Clone, Copy, PartialEq, Eq, Structural)]
pub enum SvgShape {
    Strip,
    Waveform,
    SplitStacked,
    SplitWaveform,
    SplitLanes,
    SplitCentrifugal,
    SplitOverlapping,
}

/// SVG rendering options.
#[derive(Debug, Clone)]
pub struct SvgOptions {
    pub width: u32,
    pub height: u32,
    pub shape: SvgShape,
    pub background: &'static str,
    pub max_gradient_stops: usize,
}

impl Default for SvgOptions {
    fn default() -> (o: SvgOptions)
        ensures
            o.width == 1200,
            o.height == 96,
            o.shape == SvgShape::Strip,
            o.background@ == "transparent"@,
            o.max_gradient_stops == 512,
    {
        SvgOptions {
            width: 1200,
            height: 96,
            shape: SvgShape::Strip,
            background: "transparent",
            max_gradient_stops: 512,
        }
    }
}

/// PNG rendering options.
#[derive(Debug, Clone, Copy, PartialEq, Eq, Structural)]
pub struct PngOptions {
    pub width: u32,
    pub height: u32,
    pub shape: SvgShape,
}

impl Default for PngOptions {
    fn default() -> (o: PngOptions)
        ensures
            o.width == 1200,
            o.height == 96,
            o.shape == SvgShape::Strip,
    {
        PngOptions { width: 1200, height: 96, shape: SvgShape::Strip }
    }
}

/// Errors returned by analysis and rendering APIs. The image variant carries
/// the encoder's own description of its failure.
#[derive(Debug, Clone, PartialEq, Eq)]
pub enum MoodbarError {
    Image(String),
    InvalidOptions(String),
}

/// The text that an analysis error displays.
pub open spec fn moodbar_error_text(e: MoodbarError) -> Seq<char> {
    match e {
        MoodbarError::Image(d) => "image error: "@ + d@,
        MoodbarError::InvalidOptions(d) => "invalid options: "@ + d@,
    }
}

impl MoodbarError {
    /// The human-readable description of this error.
    pub fn message(&self) -> (s: String)
        ensures
            s@ == moodbar_error_text(*self),
    {
        match self {
            MoodbarError::Image(d) => {
                let mut s = str_literal_to_string("image error: ");
                s.append(d.as_str());
                s
            },
            MoodbarError::InvalidOptions(d) => {
                let mut s = str_literal_to_string("invalid options: ");
                s.append(d.as_str());
                s
            },
        }
    }
}

} // verus!
