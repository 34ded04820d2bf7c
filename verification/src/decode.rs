use vstd::prelude::*;

use crate::text::str_literal_to_string;

verus! {

/// Non-fatal diagnostics tracked across audio packet decode.
#[derive(Debug, Clone, Copy, PartialEq, Eq, Structural)]
pub struct DecodeDiagnostics {
    /// Count of packet decode errors recovered during stream processing.
    pub decode_errors: usize,
    /// Count of audio packets reporting zero channels.
    pub zero_channel_packets: usize,
    /// Count of incomplete multi-channel frames truncated at packet end.
    pub truncated_frames: usize,
}

impl Default for DecodeDiagnostics {
    fn default() -> (d: DecodeDiagnostics)
        ensures
            d.decode_errors == 0,
            d.zero_channel_packets == 0,
            d.truncated_frames == 0,
    {
        DecodeDiagnostics { decode_errors: 0, zero_channel_packets: 0, truncated_frames: 0 }
    }
}

/// An input/output failure, as far as callers look at it: whether it was a
/// missing file, and how it describes itself.
#[derive(Debug, Clone, PartialEq, Eq)]
pub struct IoFailure {
    pub not_found: bool,
    pub description: String,
}

/// Error types returned by audio decoding and analysis operations. The
/// `Decode` variant carries the codec library's description of its failure.
#[derive(Debug, Clone, PartialEq, Eq)]
pub enum MoodbarDecodeError {
    /// No playable audio track found in media container.
    NoAudioTrack,
    /// Decoded audio stream contained zero valid audio samples.
    EmptyAudio,
    /// Underlying input/output failure.
    Io(IoFailure),
    /// Codec or container decoding failure.
    Decode(String),
    /// Invalid analysis or DSP options configuration.
    InvalidOptions(String),
}

/// The text that a decode error displays.
pub open spec fn decode_error_text(e: MoodbarDecodeError) -> Seq<char> {
    match e {
        MoodbarDecodeError::NoAudioTrack => "no playable audio track found"@,
        MoodbarDecodeError::EmptyAudio => "decoded stream has no samples"@,
        MoodbarDecodeError::Io(f) => "I/O error: "@ + f.description@,
        MoodbarDecodeError::Decode(d) => "decode error: "@ + d@,
        MoodbarDecodeError::InvalidOptions(d) => "invalid options: "@ + d@,
    }
}

impl MoodbarDecodeError {
    /// The human-readable description of this error.
    pub fn message(&self) -> (s: String)
        ensures
            s@ == decode_error_text(*self),
    {
        match self {
            MoodbarDecodeError::NoAudioTrack => str_literal_to_string(
                "no playable audio track found",
            ),
            MoodbarDecodeError::EmptyAudio => str_literal_to_string(
                "decoded stream has no samples",
            ),
            MoodbarDecodeError::Io(f) => {
                let mut s = str_literal_to_string("I/O error: ");
                s.append(f.description.as_str());
                s
            },
            MoodbarDecodeError::Decode(d) => {
                let mut s = str_literal_to_string("decode error: ");
                s.append(d.as_str());
                s
            },
            MoodbarDecodeError::InvalidOptions(d) => {
                let mut s = str_literal_to_string("invalid options: ");
                s.append(d.as_str());
                s
            },
        }
    }
}

/// What reading the next packet of the container gave.
#[derive(Debug, Clone, Copy, PartialEq, Eq, Structural)]
pub enum PacketEvent {
    /// A packet of the given track.
    Packet { track_id: u32 },
    /// The container ended.
    EndOfStream,
    /// Reading failed otherwise.
    Failed,
}

/// What to do with a packet read.
#[derive(Debug, Clone, Copy, PartialEq, Eq, Structural)]
pub enum PacketAction {
    /// Decode the packet.
    Decode,
    /// Ignore the packet and read on.
    Skip,
    /// Stop reading and finish the analysis.
    Finish,
    /// Stop and report the read failure.
    Abort,
}

/// What decoding a packet gave.
#[derive(Debug, Clone, Copy, PartialEq, Eq, Structural)]
pub enum DecodeEvent {
    /// Audio with `channels` channels, `samples` interleaved samples in all.
    Decoded { channels: usize, samples: usize },
    /// The packet was corrupt; decoding can go on.
    Corrupt,
    /// The stream ended.
    EndOfStream,
    /// Decoding failed otherwise.
    Failed,
}

/// How to fold decoded audio into mono.
#[derive(Debug, Clone, Copy, PartialEq, Eq, Structural)]
pub enum MixPlan {
    /// Take the single channel as it is.
    Copy,
    /// Average each left/right pair; an odd last sample is dropped.
    Stereo,
    /// Average the first `used` channels of each complete frame of `channels`.
    Average { channels: usize, used: usize },
}

/// What to do after a packet was decoded.
#[derive(Debug, Clone, Copy, PartialEq, Eq, Structural)]
pub enum DecodeAction {
    /// Mix the audio to `frames` mono samples as the plan says and feed them on.
    Mix { plan: MixPlan, frames: usize },
    /// Read the next packet.
    Skip,
    /// Stop reading and finish the analysis.
    Finish,
    /// Stop and report the decode failure.
    Abort,
}

/// The decisions of the decode loop: which packets to decode, how to fold
/// their audio into mono, what to count, and when to stop.
#[derive(Debug, Clone, Copy, PartialEq, Eq, Structural)]
pub struct DecodeLoop {
    pub track_id: u32,
    pub saw_samples: bool,
    pub diagnostics: DecodeDiagnostics,
}

/// All counters can still be incremented.
pub open spec fn counters_below_max(d: DecodeDiagnostics) -> bool {
    &&& d.decode_errors < usize::MAX
    &&& d.zero_channel_packets < usize::MAX
    &&& d.truncated_frames < usize::MAX
}

/// The loop and the action after decoding one packet: see [`DecodeLoop::on_decoded`].
pub open spec fn decode_step(l: DecodeLoop, event: DecodeEvent) -> (DecodeLoop, DecodeAction) {
    match event {
        DecodeEvent::Decoded { channels, samples } => if channels == 0 {
            (
                DecodeLoop {
                    diagnostics: DecodeDiagnostics {
                        zero_channel_packets: (l.diagnostics.zero_channel_packets + 1) as usize,
                        ..l.diagnostics
                    },
                    ..l
                },
                DecodeAction::Skip,
            )
        } else {
            (
                DecodeLoop {
                    saw_samples: l.saw_samples || samples / channels > 0,
                    diagnostics: DecodeDiagnostics {
                        truncated_frames: if channels >= 3 && samples % channels != 0 {
                            (l.diagnostics.truncated_frames + 1) as usize
                        } else {
                            l.diagnostics.truncated_frames
                        },
                        ..l.diagnostics
                    },
                    ..l
                },
                DecodeAction::Mix {
                    plan: if channels == 1 {
                        MixPlan::Copy
                    } else if channels == 2 {
                        MixPlan::Stereo
                    } else {
                        MixPlan::Average { channels, used: 2 }
                    },
                    frames: samples / channels,
                },
            )
        },
        DecodeEvent::Corrupt => (
            DecodeLoop {
                diagnostics: DecodeDiagnostics {
                    decode_errors: (l.diagnostics.decode_errors + 1) as usize,
                    ..l.diagnostics
                },
                ..l
            },
            DecodeAction::Skip,
        ),
        DecodeEvent::EndOfStream => (l, DecodeAction::Finish),
        DecodeEvent::Failed => (l, DecodeAction::Abort),
    }
}

/// The sum of the loop's counters.
pub open spec fn counter_total(d: DecodeDiagnostics) -> int {
    d.decode_errors + d.zero_channel_packets + d.truncated_frames
}

/// What decoding a packet does, over every loop state and event: the track is
/// kept; the counters never go down and at most one of them goes up, by one;
/// once samples were seen they stay seen; the loop stops exactly at the end of
/// the stream (finish) or on a decode failure (abort); decoded audio with
/// channels is mixed to exactly its number of complete frames
/// (`frames * channels <= samples < (frames + 1) * channels`), averaging at
/// most two channels and copying or pairing only for one or two channels;
/// and samples count as seen after the packet exactly when they were seen
/// before or the packet gave at least one complete frame.
pub proof fn lemma_decode_step(l: DecodeLoop, event: DecodeEvent)
    requires
        counters_below_max(l.diagnostics),
    ensures
        decode_step(l, event).0.track_id == l.track_id,
        decode_step(l, event).0.diagnostics.decode_errors >= l.diagnostics.decode_errors,
        decode_step(l, event).0.diagnostics.zero_channel_packets
            >= l.diagnostics.zero_channel_packets,
        decode_step(l, event).0.diagnostics.truncated_frames >= l.diagnostics.truncated_frames,
        counter_total(decode_step(l, event).0.diagnostics) <= counter_total(l.diagnostics) + 1,
        l.saw_samples ==> decode_step(l, event).0.saw_samples,
        (decode_step(l, event).1 == DecodeAction::Finish) <==> event is EndOfStream,
        (decode_step(l, event).1 == DecodeAction::Abort) <==> event is Failed,
        event is Corrupt ==> decode_step(l, event).0.diagnostics.decode_errors
            == l.diagnostics.decode_errors + 1,
        event matches DecodeEvent::Decoded { channels, samples } ==> (channels == 0
            <==> decode_step(l, event).1 == DecodeAction::Skip),
        event matches DecodeEvent::Decoded { channels, samples } ==> (decode_step(l, event).1
            matches DecodeAction::Mix { plan, frames } ==> {
            &&& frames * channels <= samples < (frames + 1) * channels
            &&& (plan == MixPlan::Copy) <==> channels == 1
            &&& (plan == MixPlan::Stereo) <==> channels == 2
            &&& plan matches MixPlan::Average { channels: c, used } ==> (c == channels && 1
                <= used <= 2 && used <= c)
            &&& decode_step(l, event).0.saw_samples == (l.saw_samples || frames >= 1)
        }),
{
    if let DecodeEvent::Decoded { channels, samples } = event {
        if channels > 0 {
            let f = samples / channels;
            assert(f * channels <= samples < (f + 1) * channels) by (nonlinear_arith)
                requires
                    f == samples / channels,
                    channels > 0,
            ;
        }
    }
}

impl DecodeLoop {
    /// The loop for the chosen track, before any packet.
    pub fn new(track_id: u32) -> (l: DecodeLoop)
        ensures
            l.track_id == track_id,
            !l.saw_samples,
            l.diagnostics == (DecodeDiagnostics {
                decode_errors: 0,
                zero_channel_packets: 0,
                truncated_frames: 0,
            }),
    {
        DecodeLoop { track_id, saw_samples: false, diagnostics: DecodeDiagnostics::default() }
    }

    /// Packets of the chosen track are decoded, those of other tracks skipped;
    /// the end of the container finishes, any other read failure aborts.
    pub fn on_packet(&self, event: PacketEvent) -> (action: PacketAction)
        ensures
            action == match event {
                PacketEvent::Packet { track_id } => if track_id == self.track_id {
                    PacketAction::Decode
                } else {
                    PacketAction::Skip
                },
                PacketEvent::EndOfStream => PacketAction::Finish,
                PacketEvent::Failed => PacketAction::Abort,
            },
    {
        match event {
            PacketEvent::Packet { track_id } => {
                if track_id == self.track_id {
                    PacketAction::Decode
                } else {
                    PacketAction::Skip
                }
            },
            PacketEvent::EndOfStream => PacketAction::Finish,
            PacketEvent::Failed => PacketAction::Abort,
        }
    }

    /// Corrupt packets and packets without channels are counted and skipped;
    /// audio is mixed to one mono sample per complete frame (for three or more
    /// channels an incomplete last frame is counted and dropped, and only the
    /// first two channels are averaged); samples count as seen once a packet
    /// yields any mono sample.
    pub fn on_decoded(&mut self, event: DecodeEvent) -> (action: DecodeAction)
        requires
            counters_below_max(old(self).diagnostics),
        ensures
            final(self).track_id == old(self).track_id,
            (*final(self), action) == decode_step(*old(self), event),
            match event {
                DecodeEvent::Decoded { channels, samples } => if channels == 0 {
                    &&& action == DecodeAction::Skip
                    &&& final(self).saw_samples == old(self).saw_samples
                    &&& final(self).diagnostics == (DecodeDiagnostics {
                        zero_channel_packets: (old(self).diagnostics.zero_channel_packets + 1) as usize,
                        ..old(self).diagnostics
                    })
                } else {
                    &&& action == DecodeAction::Mix {
                        plan: if channels == 1 {
                            MixPlan::Copy
                        } else if channels == 2 {
                            MixPlan::Stereo
                        } else {
                            MixPlan::Average { channels, used: 2 }
                        },
                        frames: samples / channels,
                    }
                    &&& final(self).saw_samples == (old(self).saw_samples || samples / channels > 0)
                    &&& final(self).diagnostics == (DecodeDiagnostics {
                        truncated_frames: if channels >= 3 && samples % channels != 0 {
                            (old(self).diagnostics.truncated_frames + 1) as usize
                        } else {
                            old(self).diagnostics.truncated_frames
                        },
                        ..old(self).diagnostics
                    })
                },
                DecodeEvent::Corrupt => {
                    &&& action == DecodeAction::Skip
                    &&& final(self).saw_samples == old(self).saw_samples
                    &&& final(self).diagnostics == (DecodeDiagnostics {
                        decode_errors: (old(self).diagnostics.decode_errors + 1) as usize,
                        ..old(self).diagnostics
                    })
                },
                DecodeEvent::EndOfStream => {
                    &&& action == DecodeAction::Finish
                    &&& *final(self) == *old(self)
                },
                DecodeEvent::Failed => {
                    &&& action == DecodeAction::Abort
                    &&& *final(self) == *old(self)
                },
            },
    {
        match event {
            DecodeEvent::Decoded { channels, samples } => {
                if channels == 0 {
                    self.diagnostics.zero_channel_packets = self.diagnostics.zero_channel_packets
                        + 1;
                    return DecodeAction::Skip;
                }
                let frames = samples / channels;
                let plan = if channels == 1 {
                    MixPlan::Copy
                } else if channels == 2 {
                    MixPlan::Stereo
                } else {
                    if samples % channels != 0 {
                        self.diagnostics.truncated_frames = self.diagnostics.truncated_frames + 1;
                    }
                    MixPlan::Average { channels, used: if channels < 2 { channels } else { 2 } }
                };
                if frames > 0 {
                    self.saw_samples = true;
                }
                DecodeAction::Mix { plan, frames }
            },
            DecodeEvent::Corrupt => {
                self.diagnostics.decode_errors = self.diagnostics.decode_errors + 1;
                DecodeAction::Skip
            },
            DecodeEvent::EndOfStream => DecodeAction::Finish,
            DecodeEvent::Failed => DecodeAction::Abort,
        }
    }

    /// The diagnostics to report once reading stops; a stream that never
    /// yielded a mono sample is an error.
    pub fn finish(&self) -> (r: Result<DecodeDiagnostics, MoodbarDecodeError>)
        ensures
            r matches Ok(d) ==> d == self.diagnostics,
            r is Ok <==> self.saw_samples,
            r matches Err(e) ==> e == MoodbarDecodeError::EmptyAudio,
    {
        if !self.saw_samples {
            return Err(MoodbarDecodeError::EmptyAudio);
        }
        Ok(self.diagnostics)
    }
}

} // verus!
