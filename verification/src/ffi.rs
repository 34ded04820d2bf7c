use vstd::prelude::*;

use std::collections::HashMap;

use base64::Engine;

use crate::decode::{decode_error_text, MoodbarDecodeError};
use crate::text::{decimal, push_decimal, str_literal_to_string};
use crate::types::{moodbar_error_text, AnalysisDiagnostics, MoodbarError};

verus! {

broadcast use vstd::std_specs::hash::group_hash_axioms;

/// Outcome of a native call, as its code tells a host.
#[derive(Debug, Clone, Copy, PartialEq, Eq, Structural)]
pub enum MoodbarNativeStatus {
    Success,
    InvalidArgument,
    NotFound,
    Internal,
}

/// The number a host receives for a status.
pub open spec fn status_code(s: MoodbarNativeStatus) -> i32 {
    match s {
        MoodbarNativeStatus::Success => 0,
        MoodbarNativeStatus::InvalidArgument => 1,
        MoodbarNativeStatus::NotFound => 2,
        MoodbarNativeStatus::Internal => 3,
    }
}

/// Failures of a native call.
#[derive(Debug, Clone, PartialEq, Eq)]
pub enum FfiError {
    InvalidArgument(String),
    NotFound(String),
    Decode(MoodbarDecodeError),
    Analysis(MoodbarError),
    Poisoned,
    Panic,
    Utf8,
    Json(String),
}

/// The text a native failure displays; decode and analysis failures show their own text.
pub open spec fn ffi_error_text(e: FfiError) -> Seq<char> {
    match e {
        FfiError::InvalidArgument(d) => "invalid argument: "@ + d@,
        FfiError::NotFound(d) => "not found: "@ + d@,
        FfiError::Decode(d) => decode_error_text(d),
        FfiError::Analysis(a) => moodbar_error_text(a),
        FfiError::Poisoned => "mutex poisoned"@,
        FfiError::Panic => "panic across FFI boundary"@,
        FfiError::Utf8 => "invalid UTF-8 in C string"@,
        FfiError::Json(d) => "invalid options JSON: "@ + d@,
    }
}

/// The status a native failure is reported with.
pub open spec fn status_of(e: FfiError) -> MoodbarNativeStatus {
    match e {
        FfiError::InvalidArgument(_) => MoodbarNativeStatus::InvalidArgument,
        FfiError::NotFound(_) => MoodbarNativeStatus::NotFound,
        FfiError::Decode(d) => match d {
            MoodbarDecodeError::NoAudioTrack | MoodbarDecodeError::EmptyAudio
            | MoodbarDecodeError::InvalidOptions(_) => MoodbarNativeStatus::InvalidArgument,
            MoodbarDecodeError::Io(f) => if f.not_found {
                MoodbarNativeStatus::NotFound
            } else {
                MoodbarNativeStatus::Internal
            },
            MoodbarDecodeError::Decode(_) => MoodbarNativeStatus::Internal,
        },
        FfiError::Analysis(a) => match a {
            MoodbarError::InvalidOptions(_) => MoodbarNativeStatus::InvalidArgument,
            MoodbarError::Image(_) => MoodbarNativeStatus::Internal,
        },
        FfiError::Utf8 | FfiError::Json(_) => MoodbarNativeStatus::InvalidArgument,
        FfiError::Poisoned | FfiError::Panic => MoodbarNativeStatus::Internal,
    }
}

/// Failures caused by what the caller handed in: a bad argument, a file with
/// no audio track or no samples, invalid options, text that is not UTF-8, an
/// options document that is not valid JSON.
pub open spec fn is_caller_input_failure(e: FfiError) -> bool {
    ||| e is InvalidArgument
    ||| e is Utf8
    ||| e is Json
    ||| e matches FfiError::Decode(d) && (d is NoAudioTrack || d is EmptyAudio
        || d is InvalidOptions)
    ||| e matches FfiError::Analysis(a) && a is InvalidOptions
}

/// Failures that name something missing: an unknown handle or a file that is
/// not there.
pub open spec fn is_missing_failure(e: FfiError) -> bool {
    ||| e is NotFound
    ||| e matches FfiError::Decode(d) && (d matches MoodbarDecodeError::Io(f) && f.not_found)
}

/// Bad input is reported as an invalid argument (code 1), something missing
/// as not found (code 2), and everything else (a codec or container failure,
/// an image encoding failure, any other I/O failure, a poisoned lock, a panic)
/// as internal (code 3); no failure is reported as success (code 0).
pub proof fn lemma_failure_statuses(e: FfiError)
    ensures
        (status_of(e) == MoodbarNativeStatus::InvalidArgument) <==> is_caller_input_failure(e),
        (status_of(e) == MoodbarNativeStatus::NotFound) <==> is_missing_failure(e),
        (status_of(e) == MoodbarNativeStatus::Internal) <==> (!is_caller_input_failure(e)
            && !is_missing_failure(e)),
        status_of(e) != MoodbarNativeStatus::Success,
        status_code(MoodbarNativeStatus::Success) == 0,
        status_code(status_of(e)) == if is_caller_input_failure(e) {
            1i32
        } else if is_missing_failure(e) {
            2i32
        } else {
            3i32
        },
{
}

fn prefixed(prefix: &str, detail: &String) -> (s: String)
    ensures
        s@ == prefix@ + detail@,
{
    let mut s = str_literal_to_string(prefix);
    s.append(detail.as_str());
    s
}

impl FfiError {
    /// The human-readable description of this failure.
    pub fn message(&self) -> (s: String)
        ensures
            s@ == ffi_error_text(*self),
    {
        match self {
            FfiError::InvalidArgument(d) => prefixed("invalid argument: ", d),
            FfiError::NotFound(d) => prefixed("not found: ", d),
            FfiError::Decode(d) => d.message(),
            FfiError::Analysis(a) => a.message(),
            FfiError::Poisoned => str_literal_to_string("mutex poisoned"),
            FfiError::Panic => str_literal_to_string("panic across FFI boundary"),
            FfiError::Utf8 => str_literal_to_string("invalid UTF-8 in C string"),
            FfiError::Json(d) => prefixed("invalid options JSON: ", d),
        }
    }
}

impl MoodbarNativeStatus {
    /// The number a host receives for this status.
    pub fn code(&self) -> (c: i32)
        ensures
            c == status_code(*self),
    {
        match self {
            MoodbarNativeStatus::Success => 0,
            MoodbarNativeStatus::InvalidArgument => 1,
            MoodbarNativeStatus::NotFound => 2,
            MoodbarNativeStatus::Internal => 3,
        }
    }

    /// The status a failure is reported with: bad input is an invalid argument,
    /// a missing file or handle is not-found, everything else is internal.
    pub fn from_error(err: &FfiError) -> (s: MoodbarNativeStatus)
        ensures
            s == status_of(*err),
    {
        match err {
            FfiError::InvalidArgument(_) => MoodbarNativeStatus::InvalidArgument,
            FfiError::NotFound(_) => MoodbarNativeStatus::NotFound,
            FfiError::Decode(decode_err) => match decode_err {
                MoodbarDecodeError::NoAudioTrack | MoodbarDecodeError::EmptyAudio
                | MoodbarDecodeError::InvalidOptions(_) => MoodbarNativeStatus::InvalidArgument,
                MoodbarDecodeError::Io(io_err) => {
                    if io_err.not_found {
                        MoodbarNativeStatus::NotFound
                    } else {
                        MoodbarNativeStatus::Internal
                    }
                },
                MoodbarDecodeError::Decode(_) => MoodbarNativeStatus::Internal,
            },
            FfiError::Analysis(analysis_err) => match analysis_err {
                MoodbarError::InvalidOptions(_) => MoodbarNativeStatus::InvalidArgument,
                MoodbarError::Image(_) => MoodbarNativeStatus::Internal,
            },
            FfiError::Utf8 | FfiError::Json(_) => MoodbarNativeStatus::InvalidArgument,
            FfiError::Poisoned | FfiError::Panic => MoodbarNativeStatus::Internal,
        }
    }
}

/// Every native failure describes itself with a non-empty message.
pub proof fn lemma_failure_text_nonempty(e: FfiError)
    ensures
        ffi_error_text(e).len() > 0,
{
    reveal_strlit("invalid argument: ");
    reveal_strlit("not found: ");
    reveal_strlit("no playable audio track found");
    reveal_strlit("decoded stream has no samples");
    reveal_strlit("I/O error: ");
    reveal_strlit("decode error: ");
    reveal_strlit("invalid options: ");
    reveal_strlit("image error: ");
    reveal_strlit("mutex poisoned");
    reveal_strlit("panic across FFI boundary");
    reveal_strlit("invalid UTF-8 in C string");
    reveal_strlit("invalid options JSON: ");
}

/// The message of the most recent failed native call (empty after a success).
#[derive(Debug, Clone)]
pub struct LastError {
    message: String,
}

impl View for LastError {
    type V = Seq<char>;

    closed spec fn view(&self) -> Seq<char> {
        self.message@
    }
}

impl LastError {
    /// No failure recorded.
    pub fn new() -> (e: LastError)
        ensures
            e@ == Seq::<char>::empty(),
    {
        LastError { message: String::new() }
    }

    /// Records a failure message.
    pub fn set_last_error(&mut self, message: String)
        ensures
            final(self)@ == message@,
    {
        self.message = message;
    }

    /// Forgets any recorded failure.
    pub fn clear_last_error(&mut self)
        ensures
            final(self)@ == Seq::<char>::empty(),
    {
        self.set_last_error(String::new());
    }

    /// A copy of the recorded failure message.
    pub fn last_error_message(&self) -> (s: String)
        ensures
            s@ == self@,
    {
        self.message.clone()
    }
}

/// Turns a native call's outcome into its status: success clears the recorded
/// failure, a failure records its message and maps to its status.
pub fn ffi_status_from_result(last: &mut LastError, result: Result<(), FfiError>) -> (s: MoodbarNativeStatus)
    ensures
        match result {
            Ok(()) => s == MoodbarNativeStatus::Success && final(last)@ == Seq::<char>::empty(),
            Err(e) => s == status_of(e) && final(last)@ == ffi_error_text(e),
        },
        (s == MoodbarNativeStatus::Success) <==> result is Ok,
        result is Err <==> final(last)@.len() > 0,
{
    if let Err(e) = &result {
        proof {
            lemma_failure_text_nonempty(*e);
        }
    }
    match result {
        Ok(()) => {
            last.clear_last_error();
            MoodbarNativeStatus::Success
        },
        Err(err) => {
            last.set_last_error(err.message());
            MoodbarNativeStatus::from_error(&err)
        },
    }
}

/// The counts a host receives after an analysis is stored.
#[derive(Debug, Clone, Copy, PartialEq, Eq, Structural)]
pub struct MoodbarNativeAnalysisSummary {
    pub handle: u64,
    pub frame_count: u32,
    pub channel_count: u32,
    pub decode_errors: u32,
    pub zero_channel_packets: u32,
    pub truncated_frames: u32,
}

/// The summary of a stored analysis; counts are cut to 32 bits as the host ABI has them.
pub fn summary_for(
    handle: u64,
    frame_count: usize,
    channel_count: usize,
    diagnostics: AnalysisDiagnostics,
) -> (s: MoodbarNativeAnalysisSummary)
    ensures
        s.handle == handle,
        s.frame_count == frame_count as u32,
        s.channel_count == channel_count as u32,
        s.decode_errors == diagnostics.decode_errors as u32,
        s.zero_channel_packets == diagnostics.zero_channel_packets as u32,
        s.truncated_frames == diagnostics.truncated_frames as u32,
{
    MoodbarNativeAnalysisSummary {
        handle,
        frame_count: frame_count as u32,
        channel_count: channel_count as u32,
        decode_errors: diagnostics.decode_errors as u32,
        zero_channel_packets: diagnostics.zero_channel_packets as u32,
        truncated_frames: diagnostics.truncated_frames as u32,
    }
}

/// The JSON reply that tells a host an analysis was stored: its handle and
/// counts, keys in the sorted order in which JSON objects are written.
pub open spec fn summary_reply_text(s: MoodbarNativeAnalysisSummary) -> Seq<char> {
    "{\"channelCount\":"@ + decimal(s.channel_count as nat) + ",\"frameCount\":"@ + decimal(
        s.frame_count as nat,
    ) + ",\"handle\":"@ + decimal(s.handle as nat) + ",\"ok\":true}"@
}

/// Writes the JSON reply for a stored analysis.
pub fn summary_reply_json(s: &MoodbarNativeAnalysisSummary) -> (r: String)
    ensures
        r@ == summary_reply_text(*s),
{
    let mut r = str_literal_to_string("{\"channelCount\":");
    push_decimal(&mut r, s.channel_count as u64);
    r.append(",\"frameCount\":");
    push_decimal(&mut r, s.frame_count as u64);
    r.append(",\"handle\":");
    push_decimal(&mut r, s.handle);
    r.append(",\"ok\":true}");
    r
}

/// The message for a handle that names no stored analysis.
pub open spec fn missing_handle_text(handle: u64) -> Seq<char> {
    "analysis handle "@ + decimal(handle as nat) + " not found"@
}

fn missing_handle(handle: u64) -> (e: FfiError)
    ensures
        e matches FfiError::NotFound(d) && d@ == missing_handle_text(handle),
{
    let mut s = str_literal_to_string("analysis handle ");
    push_decimal(&mut s, handle);
    s.append(" not found");
    FfiError::NotFound(s)
}

/// Analyses kept for a host between calls, each under the handle it was given.
pub struct AnalysisRegistry<T> {
    next_handle: u64,
    entries: HashMap<u64, T>,
}

impl<T> View for AnalysisRegistry<T> {
    type V = Map<u64, T>;

    closed spec fn view(&self) -> Map<u64, T> {
        self.entries@
    }
}

impl<T> AnalysisRegistry<T> {
    /// The handle the next stored analysis receives.
    pub closed spec fn next(&self) -> u64 {
        self.next_handle
    }

    /// Every live handle was handed out before: it lies below the next handle,
    /// so the next handle names no live analysis.
    pub closed spec fn handles_fresh(&self) -> bool {
        forall|k: u64| #[trigger] self.entries@.contains_key(k) ==> k < self.next_handle
    }

    /// An empty registry whose first handle is 1.
    pub fn new() -> (r: AnalysisRegistry<T>)
        ensures
            r@ == Map::<u64, T>::empty(),
            r.next() == 1,
            r.handles_fresh(),
    {
        AnalysisRegistry { next_handle: 1, entries: HashMap::new() }
    }

    /// Stores an analysis under a fresh handle (handles count up from 1,
    /// wrapping around at the end of the 64-bit range) and returns the handle.
    /// Until the counter wraps, the handle names no analysis stored before.
    pub fn store(&mut self, item: T) -> (handle: u64)
        ensures
            handle == old(self).next(),
            final(self).next() == if old(self).next() == u64::MAX {
                0
            } else {
                (old(self).next() + 1) as u64
            },
            final(self)@ == old(self)@.insert(handle, item),
            old(self).handles_fresh() && old(self).next() < u64::MAX ==> {
                &&& !old(self)@.contains_key(handle)
                &&& final(self).handles_fresh()
            },
    {
        let handle = self.next_handle;
        self.next_handle = self.next_handle.wrapping_add(1);
        self.entries.insert(handle, item);
        proof {
            if old(self).handles_fresh() && handle < u64::MAX {
                assert forall|k: u64| #[trigger] self.entries@.contains_key(k) implies k
                    < self.next_handle by {
                    if k != handle {
                        assert(old(self).entries@.contains_key(k));
                    }
                }
            }
        }
        handle
    }

    /// The analysis stored under `handle`, or a not-found failure naming the handle.
    pub fn get(&self, handle: u64) -> (r: Result<&T, FfiError>)
        ensures
            r is Ok <==> self@.contains_key(handle),
            r matches Ok(v) ==> *v == self@[handle],
            r matches Err(e) ==> (e matches FfiError::NotFound(d) && d@ == missing_handle_text(
                handle,
            )),
    {
        match self.entries.get(&handle) {
            Some(v) => Ok(v),
            None => Err(missing_handle(handle)),
        }
    }

    /// Removes the analysis stored under `handle`; a handle with nothing stored
    /// is a not-found failure naming the handle.
    pub fn free_analysis(&mut self, handle: u64) -> (r: Result<(), FfiError>)
        ensures
            r is Ok <==> old(self)@.contains_key(handle),
            final(self)@ == old(self)@.remove(handle),
            final(self).next() == old(self).next(),
            old(self).handles_fresh() ==> final(self).handles_fresh(),
            r matches Err(e) ==> (e matches FfiError::NotFound(d) && d@ == missing_handle_text(
                handle,
            )),
    {
        match self.entries.remove(&handle) {
            Some(_) => Ok(()),
            None => Err(missing_handle(handle)),
        }
    }
}

/// A stored analysis is read back unchanged under its handle until that handle
/// is disposed of; afterwards the handle is unknown and disposing of it again fails.
pub proof fn lemma_handle_lifecycle<T>(
    before: Map<u64, T>,
    stored: Map<u64, T>,
    disposed: Map<u64, T>,
    handle: u64,
    item: T,
)
    requires
        stored == before.insert(handle, item),
        disposed == stored.remove(handle),
    ensures
        stored.contains_key(handle),
        stored[handle] == item,
        !disposed.contains_key(handle),
        forall|h: u64| h != handle ==> (#[trigger] disposed.contains_key(h) <==> before.contains_key(h)),
{
}

/// While the handle counter has not wrapped, the handle that the next store
/// hands out names no live analysis, and a registry that keeps its handles
/// fresh keeps them fresh through any store and any disposal.
pub proof fn lemma_next_handle_unused<T>(r: AnalysisRegistry<T>)
    requires
        r.handles_fresh(),
    ensures
        !r@.contains_key(r.next()),
{
}

} // verus!

verus! {

/// The character of a six-bit value in the standard base64 alphabet.
pub open spec fn base64_char(v: nat) -> char {
    if v < 26 {
        (65 + v) as char
    } else if v < 52 {
        (71 + v) as char
    } else if v < 62 {
        (v - 4) as char
    } else if v == 62 {
        '+'
    } else {
        '/'
    }
}

/// The standard, padded base64 text of a byte string: every group of three
/// bytes becomes four characters, and a last group of one or two bytes becomes
/// two or three characters followed by `=` padding up to four.
pub open spec fn base64_standard(b: Seq<u8>) -> Seq<char>
    decreases b.len(),
{
    if b.len() == 0 {
        Seq::empty()
    } else if b.len() == 1 {
        seq![base64_char(b[0] as nat / 4), base64_char((b[0] as nat % 4) * 16), '=', '=']
    } else if b.len() == 2 {
        seq![
            base64_char(b[0] as nat / 4),
            base64_char((b[0] as nat % 4) * 16 + b[1] as nat / 16),
            base64_char((b[1] as nat % 16) * 4),
            '=',
        ]
    } else {
        seq![
            base64_char(b[0] as nat / 4),
            base64_char((b[0] as nat % 4) * 16 + b[1] as nat / 16),
            base64_char((b[1] as nat % 16) * 4 + b[2] as nat / 64),
            base64_char(b[2] as nat % 64),
        ] + base64_standard(b.subrange(3, b.len() as int))
    }
}

/// Padded base64 takes four characters for every started group of three bytes.
pub proof fn lemma_base64_len(b: Seq<u8>)
    ensures
        base64_standard(b).len() == 4 * ((b.len() + 2) / 3),
    decreases b.len(),
{
    if b.len() >= 3 {
        lemma_base64_len(b.subrange(3, b.len() as int));
    }
}

/// Encodes bytes with `base64::engine::general_purpose::STANDARD.encode`.
/// Claimed of it, from the crate's source: the text is the standard alphabet's
/// padded encoding. The crate panics when the encoded length overflows
/// `usize`, which `requires` rules out.
#[verifier::external_body]
fn base64_encode(bytes: &Vec<u8>) -> (s: String)
    requires
        4 * ((bytes@.len() + 2) / 3) <= usize::MAX,
    ensures
        s@ == base64_standard(bytes@),
{
    base64::engine::general_purpose::STANDARD.encode(bytes)
}

/// The base64 text under which a rendered PNG travels to a host; no bytes give
/// the empty text.
pub fn png_payload_base64(bytes: &Vec<u8>) -> (s: String)
    requires
        4 * ((bytes@.len() + 2) / 3) <= usize::MAX,
    ensures
        s@ == base64_standard(bytes@),
        s@.len() == 4 * ((bytes@.len() + 2) / 3),
{
    proof {
        lemma_base64_len(bytes@);
    }
    if bytes.len() == 0 {
        String::new()
    } else {
        base64_encode(bytes)
    }
}

} // verus!
