use vstd::prelude::*;

use crate::options::NormalizeMode;
use crate::schema::normalize_mode_name;
use crate::text::{chars_of, str_literal_to_string};

verus! {

/// Normalization mode as the command line names it.
#[derive(Debug, Clone, Copy, PartialEq, Eq, Structural)]
pub enum NormalizeModeArg {
    PerChannelPeak,
    GlobalPeak,
}

/// The name of a normalization mode as the command line takes it.
pub open spec fn normalize_mode_arg_name(a: NormalizeModeArg) -> Seq<char> {
    match a {
        NormalizeModeArg::PerChannelPeak => "PerChannelPeak"@,
        NormalizeModeArg::GlobalPeak => "GlobalPeak"@,
    }
}

impl NormalizeModeArg {
    /// The analysis setting this argument selects: the mode of the same name.
    pub fn into_core(self) -> (m: NormalizeMode)
        ensures
            normalize_mode_name(m) == normalize_mode_arg_name(self),
            m == match self {
                NormalizeModeArg::PerChannelPeak => NormalizeMode::PerChannelPeak,
                NormalizeModeArg::GlobalPeak => NormalizeMode::GlobalPeak,
            },
    {
        match self {
            NormalizeModeArg::PerChannelPeak => NormalizeMode::PerChannelPeak,
            NormalizeModeArg::GlobalPeak => NormalizeMode::GlobalPeak,
        }
    }
}

/// The refusal to overwrite an existing output.
pub open spec fn exists_refusal_text(path: Seq<char>) -> Seq<char> {
    path + " exists; pass --force to overwrite"@
}

/// An output may be written unless it exists and overwriting was not forced.
pub fn ensure_can_write(path: &str, exists: bool, force: bool) -> (r: Result<(), String>)
    ensures
        r is Err <==> (exists && !force),
        r matches Err(m) ==> m@ == exists_refusal_text(path@),
{
    if exists && !force {
        let mut m = str_literal_to_string(path);
        m.append(" exists; pass --force to overwrite");
        return Err(m);
    }
    Ok(())
}

/// ASCII letters lowered; every other character kept.
pub open spec fn ascii_lower(c: char) -> char {
    if 'A' <= c && c <= 'Z' {
        ((c as u32) + 32) as char
    } else {
        c
    }
}

/// The file extensions taken for audio, compared without regard to ASCII case.
pub open spec fn is_audio_extension_text(ext: Seq<char>) -> bool {
    let lower = ext.map_values(|c: char| ascii_lower(c));
    ||| lower == "mp3"@
    ||| lower == "ogg"@
    ||| lower == "flac"@
    ||| lower == "wav"@
    ||| lower == "m4a"@
    ||| lower == "aac"@
    ||| lower == "opus"@
}

/// ASCII letters raised; every other character kept.
pub open spec fn ascii_upper(c: char) -> char {
    if 'a' <= c && c <= 'z' {
        ((c as u32) - 32) as char
    } else {
        c
    }
}

proof fn lemma_ascii_case_chars(c: char)
    ensures
        ascii_lower(ascii_lower(c)) == ascii_lower(c),
        ascii_lower(ascii_upper(c)) == ascii_lower(c),
{
    if 'a' <= c && c <= 'z' {
        let u = ((c as u32) - 32) as char;
        assert(u as u32 == c as u32 - 32);
        assert('A' <= u && u <= 'Z');
        assert(((u as u32) + 32) as char == c);
    }
    if 'A' <= c && c <= 'Z' {
        let l = ((c as u32) + 32) as char;
        assert(l as u32 == c as u32 + 32);
        assert(!('A' <= l && l <= 'Z'));
    }
}

/// Whether a text holds no ASCII capital letter.
pub open spec fn has_no_ascii_capital(s: Seq<char>) -> bool {
    forall|i: int| 0 <= i < s.len() ==> !('A' <= #[trigger] s[i] && s[i] <= 'Z')
}

/// Audio extensions are recognised regardless of ASCII case: lowering or
/// raising an extension's letters never changes whether it counts as audio,
/// and an extension without capitals counts exactly when it is one of mp3,
/// ogg, flac, wav, m4a, aac or opus.
pub proof fn lemma_audio_extension_ignores_case(ext: Seq<char>)
    ensures
        is_audio_extension_text(ext.map_values(|c: char| ascii_lower(c)))
            == is_audio_extension_text(ext),
        is_audio_extension_text(ext.map_values(|c: char| ascii_upper(c)))
            == is_audio_extension_text(ext),
        has_no_ascii_capital(ext) ==> (is_audio_extension_text(ext) <==> (ext == "mp3"@ || ext
            == "ogg"@ || ext == "flac"@ || ext == "wav"@ || ext == "m4a"@ || ext == "aac"@ || ext
            == "opus"@)),
{
    let lower = ext.map_values(|c: char| ascii_lower(c));
    let upper = ext.map_values(|c: char| ascii_upper(c));
    assert forall|i: int| 0 <= i < ext.len() implies ascii_lower(#[trigger] ext[i]) == ascii_lower(
        ascii_lower(ext[i]),
    ) && ascii_lower(ext[i]) == ascii_lower(ascii_upper(ext[i])) by {
        lemma_ascii_case_chars(ext[i]);
    }
    assert(lower.map_values(|c: char| ascii_lower(c)) =~= lower);
    assert(upper.map_values(|c: char| ascii_lower(c)) =~= lower);
    if has_no_ascii_capital(ext) {
        assert(lower =~= ext);
    }
}

fn ascii_lower_exec(c: char) -> (r: char)
    ensures
        r == ascii_lower(c),
{
    if 'A' <= c && c <= 'Z' {
        ((c as u32) + 32) as u8 as char
    } else {
        c
    }
}

fn lower_equals(lower: &Vec<char>, word: &str) -> (r: bool)
    ensures
        r == (lower@ == word@),
{
    let w = chars_of(word);
    if lower.len() != w.len() {
        return false;
    }
    let mut i: usize = 0;
    while i < w.len()
        invariant
            w@ == word@,
            lower@.len() == w@.len(),
            i <= w@.len(),
            lower@.subrange(0, i as int) == w@.subrange(0, i as int),
        decreases w.len() - i,
    {
        let a: char = lower[i];
        let b: char = w[i];
        if a != b {
            assert(lower@[i as int] != w@[i as int]);
            return false;
        }
        i = i + 1;
        assert(lower@.subrange(0, i as int) =~= lower@.subrange(0, i - 1).push(lower@[i - 1]));
        assert(w@.subrange(0, i as int) =~= w@.subrange(0, i - 1).push(w@[i - 1]));
    }
    assert(lower@ =~= lower@.subrange(0, i as int));
    assert(w@ =~= w@.subrange(0, i as int));
    true
}

/// Whether a file extension names an audio format the batch command converts.
pub fn is_audio_extension(ext: &str) -> (r: bool)
    ensures
        r == is_audio_extension_text(ext@),
{
    let chars = chars_of(ext);
    let mut lower: Vec<char> = Vec::new();
    let mut i: usize = 0;
    while i < chars.len()
        invariant
            i <= chars.len(),
            lower@ == chars@.subrange(0, i as int).map_values(|c: char| ascii_lower(c)),
        decreases chars.len() - i,
    {
        lower.push(ascii_lower_exec(chars[i]));
        i = i + 1;
        assert(lower@ =~= chars@.subrange(0, i as int).map_values(|c: char| ascii_lower(c)));
    }
    assert(chars@.subrange(0, chars.len() as int) =~= chars@);
    lower_equals(&lower, "mp3") || lower_equals(&lower, "ogg") || lower_equals(&lower, "flac")
        || lower_equals(&lower, "wav") || lower_equals(&lower, "m4a") || lower_equals(&lower, "aac")
        || lower_equals(&lower, "opus")
}

/// What a batch run does with the output of one audio file.
#[derive(Debug, Clone, Copy, PartialEq, Eq, Structural)]
pub enum OutputPlan {
    /// Generate the output, creating or replacing the file.
    Write,
    /// Leave the output alone: it exists and is at least as new as its input.
    Skip,
    /// Refuse: the output exists, is older than its input, and overwriting was not forced.
    Refuse,
}

/// The plan for one batch output. A missing output, or any output under
/// `--force`, is written; an existing output at least as new as its input is
/// skipped as up to date; an existing output older than its input is refused
/// unless forced, with the same message as a refused single-file output.
pub open spec fn output_plan(present: bool, newer_or_equal: bool, force: bool) -> OutputPlan {
    if !present || force {
        OutputPlan::Write
    } else if newer_or_equal {
        OutputPlan::Skip
    } else {
        OutputPlan::Refuse
    }
}

/// Decides what a batch run does with one output.
pub fn plan_output(present: bool, newer_or_equal: bool, force: bool) -> (p: OutputPlan)
    ensures
        p == output_plan(present, newer_or_equal, force),
        (p == OutputPlan::Skip) <==> (present && newer_or_equal && !force),
        (p == OutputPlan::Refuse) <==> (present && !newer_or_equal && !force),
        (p == OutputPlan::Write) <==> (!present || force),
{
    if !present || force {
        OutputPlan::Write
    } else if newer_or_equal {
        OutputPlan::Skip
    } else {
        OutputPlan::Refuse
    }
}

/// How one audio file of a batch ended.
#[derive(Debug, Clone, Copy, PartialEq, Eq, Structural)]
pub enum FileOutcome {
    /// The output was generated and written.
    Converted,
    /// The output was up to date and left alone.
    Skipped,
    /// Generating or writing the output failed, or it was refused.
    Failed,
}

/// Counts of a batch run.
#[derive(Debug, Clone, Copy, PartialEq, Eq, Structural)]
pub struct BatchTally {
    pub processed: usize,
    pub succeeded: usize,
    pub skipped: usize,
    pub failed: usize,
}

/// Every processed file is counted exactly once as converted, skipped or failed.
pub open spec fn tally_balanced(t: BatchTally) -> bool {
    t.processed == t.succeeded + t.skipped + t.failed
}

/// The tally once one more file ended with `outcome`.
pub open spec fn tally_after(t: BatchTally, outcome: FileOutcome) -> BatchTally {
    BatchTally {
        processed: (t.processed + 1) as usize,
        succeeded: if outcome == FileOutcome::Converted {
            (t.succeeded + 1) as usize
        } else {
            t.succeeded
        },
        skipped: if outcome == FileOutcome::Skipped {
            (t.skipped + 1) as usize
        } else {
            t.skipped
        },
        failed: if outcome == FileOutcome::Failed {
            (t.failed + 1) as usize
        } else {
            t.failed
        },
    }
}

/// The exit status of a batch run: zero unless a file failed.
pub open spec fn batch_exit_code(t: BatchTally) -> i32 {
    if t.failed == 0 {
        0
    } else {
        1
    }
}

impl BatchTally {
    /// No file processed yet.
    pub fn new() -> (t: BatchTally)
        ensures
            t.processed == 0 && t.succeeded == 0 && t.skipped == 0 && t.failed == 0,
            tally_balanced(t),
    {
        BatchTally { processed: 0, succeeded: 0, skipped: 0, failed: 0 }
    }

    /// Counts one more audio file and how it ended.
    pub fn record(&mut self, outcome: FileOutcome)
        requires
            old(self).processed < usize::MAX,
            old(self).succeeded < usize::MAX,
            old(self).skipped < usize::MAX,
            old(self).failed < usize::MAX,
        ensures
            *final(self) == tally_after(*old(self), outcome),
    {
        self.processed = self.processed + 1;
        match outcome {
            FileOutcome::Converted => {
                self.succeeded = self.succeeded + 1;
            },
            FileOutcome::Skipped => {
                self.skipped = self.skipped + 1;
            },
            FileOutcome::Failed => {
                self.failed = self.failed + 1;
            },
        }
    }

    /// The batch command's exit status: zero when no file failed (skipped
    /// files count as fine), one otherwise.
    pub fn exit_code(&self) -> (code: i32)
        ensures
            code == batch_exit_code(*self),
    {
        if self.failed == 0 {
            0
        } else {
            1
        }
    }
}

/// A batch keeps going past failed and skipped files: every processed file is
/// counted once as converted, skipped or failed, and the run exits non-zero
/// exactly when one failed.
pub proof fn lemma_batch_tally(before: BatchTally, outcome: FileOutcome)
    requires
        tally_balanced(before),
        before.processed < usize::MAX,
    ensures
        tally_balanced(tally_after(before, outcome)),
        (batch_exit_code(tally_after(before, outcome)) == 0) <==> (before.failed == 0
            && outcome != FileOutcome::Failed),
{
}

/// The count that an outcome adds to.
pub open spec fn outcome_count(t: BatchTally, outcome: FileOutcome) -> int {
    match outcome {
        FileOutcome::Converted => t.succeeded as int,
        FileOutcome::Skipped => t.skipped as int,
        FileOutcome::Failed => t.failed as int,
    }
}

/// Recording a file adds one to the processed count and to the count of its
/// own outcome, and leaves the counts of the other two outcomes as they were.
pub proof fn lemma_tally_counts_each_outcome(t: BatchTally, outcome: FileOutcome)
    requires
        t.processed < usize::MAX,
        t.succeeded < usize::MAX,
        t.skipped < usize::MAX,
        t.failed < usize::MAX,
    ensures
        tally_after(t, outcome).processed == t.processed + 1,
        outcome_count(tally_after(t, outcome), outcome) == outcome_count(t, outcome) + 1,
        forall|o: FileOutcome|
            o != outcome ==> #[trigger] outcome_count(tally_after(t, outcome), o) == outcome_count(
                t,
                o,
            ),
{
}

/// Up-to-date outputs do not fail a batch: a run in which every output is
/// skipped (or converted) reports no failure and exits with zero.
pub proof fn lemma_skipping_keeps_success(before: BatchTally, outcome: FileOutcome)
    requires
        before.failed == 0,
        before.processed < usize::MAX,
        outcome != FileOutcome::Failed,
    ensures
        tally_after(before, outcome).failed == 0,
        batch_exit_code(tally_after(before, outcome)) == 0,
{
}

} // verus!

verus! {

/// A lowercase hexadecimal digit.
pub open spec fn hex_lower(d: nat) -> char {
    if d < 10 {
        (48 + d) as char
    } else {
        (87 + d) as char
    }
}

/// How `serde_json` writes one character inside a JSON string: quote and
/// backslash behind a backslash; backspace, tab, line feed, form feed and
/// carriage return as `\b \t \n \f \r`; other characters below 0x20 as
/// `\u00xx` with lowercase hex digits; every other character as it is.
pub open spec fn json_char_escape(c: char) -> Seq<char> {
    let u = c as u32;
    if c == '"' {
        seq!['\\', '"']
    } else if c == '\\' {
        seq!['\\', '\\']
    } else if u == 8 {
        seq!['\\', 'b']
    } else if u == 9 {
        seq!['\\', 't']
    } else if u == 10 {
        seq!['\\', 'n']
    } else if u == 12 {
        seq!['\\', 'f']
    } else if u == 13 {
        seq!['\\', 'r']
    } else if u < 32 {
        seq!['\\', 'u', '0', '0', hex_lower(u as nat / 16), hex_lower(u as nat % 16)]
    } else {
        seq![c]
    }
}

/// The escaped characters of a text, in order.
pub open spec fn json_escaped(s: Seq<char>) -> Seq<char>
    decreases s.len(),
{
    if s.len() == 0 {
        Seq::empty()
    } else {
        json_escaped(s.drop_last()) + json_char_escape(s.last())
    }
}

/// JSON escaping leaves no control character and no bare quote: every
/// character of the escaped text is at least 0x20, every double quote in it
/// follows a backslash, and a text with no quote, backslash or control
/// character is its own escaping.
pub proof fn lemma_json_escaped_is_clean(s: Seq<char>)
    ensures
        forall|i: int| 0 <= i < json_escaped(s).len() ==> #[trigger] json_escaped(s)[i] as u32 >= 32,
        forall|i: int|
            0 <= i < json_escaped(s).len() && #[trigger] json_escaped(s)[i] == '"' ==> i >= 1
                && json_escaped(s)[i - 1] == '\\',
        (forall|i: int| 0 <= i < s.len() ==> #[trigger] s[i] as u32 >= 32 && s[i] != '"' && s[i]
            != '\\') ==> json_escaped(s) == s,
    decreases s.len(),
{
    if s.len() > 0 {
        let p = s.drop_last();
        lemma_json_escaped_is_clean(p);
        let a = json_escaped(p);
        let c = s.last();
        let e = json_char_escape(c);
        assert(json_escaped(s) == a + e);
        let u = c as u32;
        if u < 32 && u != 8 && u != 9 && u != 10 && u != 12 && u != 13 {
            assert(hex_lower(u as nat / 16) as u32 >= 48);
            assert(hex_lower(u as nat % 16) as u32 >= 48);
        }
        assert forall|i: int| 0 <= i < e.len() implies #[trigger] e[i] as u32 >= 32 && (e[i] == '"'
            ==> i >= 1 && e[i - 1] == '\\') by {}
        assert forall|i: int| 0 <= i < json_escaped(s).len() && #[trigger] json_escaped(s)[i]
            == '"' implies i >= 1 && json_escaped(s)[i - 1] == '\\' by {
            if i >= a.len() {
                assert(json_escaped(s)[i] == e[i - a.len()]);
                if i - a.len() >= 1 {
                    assert(json_escaped(s)[i - 1] == e[i - a.len() - 1]);
                }
            } else {
                assert(json_escaped(s)[i] == a[i]);
                assert(json_escaped(s)[i - 1] == a[i - 1]);
            }
        }
        if forall|i: int| 0 <= i < s.len() ==> #[trigger] s[i] as u32 >= 32 && s[i] != '"' && s[i]
            != '\\' {
            assert forall|i: int| 0 <= i < p.len() implies #[trigger] p[i] as u32 >= 32 && p[i]
                != '"' && p[i] != '\\' by {
                assert(p[i] == s[i]);
            }
            assert(s[s.len() - 1] == c);
            assert(json_escaped(s) =~= s);
        }
    }
}

/// The JSON string literal of a text: its escaped characters between double quotes.
pub open spec fn json_string_literal(s: Seq<char>) -> Seq<char> {
    seq!['"'] + json_escaped(s) + seq!['"']
}

/// The error type of `serde_json`, carried through unopened.
#[verifier::external_type_specification]
#[verifier::external_body]
pub struct ExJsonError(serde_json::Error);

/// Serializes a text with `serde_json::to_string`. Claimed of it, from the
/// crate's source (`format_escaped_str` and its `ESCAPE` table in `ser.rs`):
/// serializing a `str` into memory cannot fail, and the result is the text's
/// characters, escaped as [`json_char_escape`] says, between double quotes.
#[verifier::external_body]
fn json_quote(s: &str) -> (r: Result<String, serde_json::Error>)
    ensures
        r is Ok,
        r matches Ok(q) ==> q@ == json_string_literal(s@),
{
    serde_json::to_string(s)
}

/// A text with its leading double quotes removed.
pub open spec fn strip_start_quotes(s: Seq<char>) -> Seq<char>
    decreases s.len(),
{
    if s.len() > 0 && s[0] == '"' {
        strip_start_quotes(s.drop_first())
    } else {
        s
    }
}

/// A text with its trailing double quotes removed.
pub open spec fn strip_end_quotes(s: Seq<char>) -> Seq<char>
    decreases s.len(),
{
    if s.len() > 0 && s.last() == '"' {
        strip_end_quotes(s.drop_last())
    } else {
        s
    }
}

/// A text with every leading and trailing double quote removed.
pub open spec fn trim_quotes(s: Seq<char>) -> Seq<char> {
    strip_end_quotes(strip_start_quotes(s))
}

/// Removes every leading and trailing double quote of a text.
pub fn trim_double_quotes(s: &str) -> (r: String)
    ensures
        r@ == trim_quotes(s@),
{
    let v = chars_of(s);
    let n = v.len();
    let ghost sv = s@;
    let mut i: usize = 0;
    assert(sv.subrange(0, n as int) =~= sv);
    while i < n && v[i] == '"'
        invariant
            v@ == sv,
            n == sv.len(),
            i <= n,
            strip_start_quotes(sv) == strip_start_quotes(sv.subrange(i as int, n as int)),
        decreases n - i,
    {
        assert(sv.subrange(i as int, n as int).drop_first() =~= sv.subrange(i + 1, n as int));
        i = i + 1;
    }
    assert(strip_start_quotes(sv) == sv.subrange(i as int, n as int));
    let mut j: usize = n;
    while j > i && v[j - 1] == '"'
        invariant
            v@ == sv,
            n == sv.len(),
            i <= j <= n,
            trim_quotes(sv) == strip_end_quotes(sv.subrange(i as int, j as int)),
        decreases j,
    {
        assert(sv.subrange(i as int, j as int).drop_last() =~= sv.subrange(i as int, j - 1));
        j = j - 1;
    }
    assert(trim_quotes(sv) == sv.subrange(i as int, j as int));
    s.substring_char(i, j).to_owned()
}

/// The JSON-escaped body of a text: its JSON string literal with all leading
/// and trailing double quotes removed (so a text that ends in a double quote
/// loses the escaped quote too, leaving a lone backslash).
pub fn escape_json_string(s: &str) -> (r: String)
    ensures
        r@ == trim_quotes(json_string_literal(s@)),
{
    let quoted = match json_quote(s) {
        Ok(q) => q,
        Err(_) => str_literal_to_string("\"<encode-error>\""),
    };
    trim_double_quotes(quoted.as_str())
}

} // verus!
