use vstd::prelude::*;
use vstd::std_specs::convert::FromSpecImpl;

use crate::options::{DetectionMode, NormalizeMode, Theme};
use crate::text::{chars_of, str_eq, str_literal_to_string};
use crate::types::{PngOptions, SvgOptions, SvgShape};
use crate::cli::hex_lower;

verus! {

/// Normalization mode as named in an options document.
#[derive(Debug, Clone, Copy, PartialEq, Eq, Structural)]
pub enum NormalizeModeInput {
    PerChannelPeak,
    GlobalPeak,
}

/// Detection mode as named in an options document.
#[derive(Debug, Clone, Copy, PartialEq, Eq, Structural)]
pub enum DetectionModeInput {
    SpectralEnergy,
    SpectralFlux,
}

/// SVG shape as named in an options document.
#[derive(Debug, Clone, Copy, PartialEq, Eq, Structural)]
pub enum SvgShapeInput {
    Strip,
    Waveform,
    SplitStacked,
    SplitWaveform,
    SplitLanes,
    SplitCentrifugal,
    SplitOverlapping,
}

/// Theme as named in an options document.
#[derive(Debug, Clone, Copy, PartialEq, Eq, Structural)]
pub enum ThemeInput {
    Classic,
    Cool,
    Light,
}

/// The normalization mode an input names.
pub open spec fn normalize_mode_of(v: NormalizeModeInput) -> NormalizeMode {
    match v {
        NormalizeModeInput::PerChannelPeak => NormalizeMode::PerChannelPeak,
        NormalizeModeInput::GlobalPeak => NormalizeMode::GlobalPeak,
    }
}

/// The detection mode an input names.
pub open spec fn detection_mode_of(v: DetectionModeInput) -> DetectionMode {
    match v {
        DetectionModeInput::SpectralEnergy => DetectionMode::SpectralEnergy,
        DetectionModeInput::SpectralFlux => DetectionMode::SpectralFlux,
    }
}

/// The shape an input names.
pub open spec fn svg_shape_of(v: SvgShapeInput) -> SvgShape {
    match v {
        SvgShapeInput::Strip => SvgShape::Strip,
        SvgShapeInput::Waveform => SvgShape::Waveform,
        SvgShapeInput::SplitStacked => SvgShape::SplitStacked,
        SvgShapeInput::SplitWaveform => SvgShape::SplitWaveform,
        SvgShapeInput::SplitLanes => SvgShape::SplitLanes,
        SvgShapeInput::SplitCentrifugal => SvgShape::SplitCentrifugal,
        SvgShapeInput::SplitOverlapping => SvgShape::SplitOverlapping,
    }
}

/// The theme an input names.
pub open spec fn theme_of(v: ThemeInput) -> Theme {
    match v {
        ThemeInput::Classic => Theme::Classic,
        ThemeInput::Cool => Theme::Cool,
        ThemeInput::Light => Theme::Light,
    }
}

/// The name by which an options document writes a shape.
pub open spec fn svg_shape_input_name(v: SvgShapeInput) -> Seq<char> {
    match v {
        SvgShapeInput::Strip => "Strip"@,
        SvgShapeInput::Waveform => "Waveform"@,
        SvgShapeInput::SplitStacked => "SplitStacked"@,
        SvgShapeInput::SplitWaveform => "SplitWaveform"@,
        SvgShapeInput::SplitLanes => "SplitLanes"@,
        SvgShapeInput::SplitCentrifugal => "SplitCentrifugal"@,
        SvgShapeInput::SplitOverlapping => "SplitOverlapping"@,
    }
}

/// The name of a rendering shape.
pub open spec fn svg_shape_name(s: SvgShape) -> Seq<char> {
    match s {
        SvgShape::Strip => "Strip"@,
        SvgShape::Waveform => "Waveform"@,
        SvgShape::SplitStacked => "SplitStacked"@,
        SvgShape::SplitWaveform => "SplitWaveform"@,
        SvgShape::SplitLanes => "SplitLanes"@,
        SvgShape::SplitCentrifugal => "SplitCentrifugal"@,
        SvgShape::SplitOverlapping => "SplitOverlapping"@,
    }
}

/// The name by which an options document writes a normalization mode.
pub open spec fn normalize_mode_input_name(v: NormalizeModeInput) -> Seq<char> {
    match v {
        NormalizeModeInput::PerChannelPeak => "PerChannelPeak"@,
        NormalizeModeInput::GlobalPeak => "GlobalPeak"@,
    }
}

/// The name of a normalization mode.
pub open spec fn normalize_mode_name(m: NormalizeMode) -> Seq<char> {
    match m {
        NormalizeMode::PerChannelPeak => "PerChannelPeak"@,
        NormalizeMode::GlobalPeak => "GlobalPeak"@,
    }
}

/// The name by which an options document writes a detection mode.
pub open spec fn detection_mode_input_name(v: DetectionModeInput) -> Seq<char> {
    match v {
        DetectionModeInput::SpectralEnergy => "SpectralEnergy"@,
        DetectionModeInput::SpectralFlux => "SpectralFlux"@,
    }
}

/// The name of a detection mode.
pub open spec fn detection_mode_name(m: DetectionMode) -> Seq<char> {
    match m {
        DetectionMode::SpectralEnergy => "SpectralEnergy"@,
        DetectionMode::SpectralFlux => "SpectralFlux"@,
    }
}

/// The name by which an options document writes a theme.
pub open spec fn theme_input_name(v: ThemeInput) -> Seq<char> {
    match v {
        ThemeInput::Classic => "Classic"@,
        ThemeInput::Cool => "Cool"@,
        ThemeInput::Light => "Light"@,
    }
}

/// The name of a theme.
pub open spec fn theme_name(t: Theme) -> Seq<char> {
    match t {
        Theme::Classic => "Classic"@,
        Theme::Cool => "Cool"@,
        Theme::Light => "Light"@,
    }
}

/// Every name in an options document converts to the setting of the same
/// name, and different names to different settings.
pub proof fn lemma_inputs_convert_by_name()
    ensures
        forall|v: SvgShapeInput| svg_shape_name(#[trigger] svg_shape_of(v)) == svg_shape_input_name(v),
        forall|a: SvgShapeInput, b: SvgShapeInput|
            #[trigger] svg_shape_of(a) == #[trigger] svg_shape_of(b) ==> a == b,
        forall|v: NormalizeModeInput|
            normalize_mode_name(#[trigger] normalize_mode_of(v)) == normalize_mode_input_name(v),
        forall|a: NormalizeModeInput, b: NormalizeModeInput|
            #[trigger] normalize_mode_of(a) == #[trigger] normalize_mode_of(b) ==> a == b,
        forall|v: DetectionModeInput|
            detection_mode_name(#[trigger] detection_mode_of(v)) == detection_mode_input_name(v),
        forall|a: DetectionModeInput, b: DetectionModeInput|
            #[trigger] detection_mode_of(a) == #[trigger] detection_mode_of(b) ==> a == b,
        forall|v: ThemeInput| theme_name(#[trigger] theme_of(v)) == theme_input_name(v),
        forall|a: ThemeInput, b: ThemeInput| #[trigger] theme_of(a) == #[trigger] theme_of(b) ==> a == b,
{
}

impl From<NormalizeModeInput> for NormalizeMode {
    fn from(value: NormalizeModeInput) -> (r: NormalizeMode) {
        match value {
            NormalizeModeInput::PerChannelPeak => NormalizeMode::PerChannelPeak,
            NormalizeModeInput::GlobalPeak => NormalizeMode::GlobalPeak,
        }
    }
}

impl FromSpecImpl<NormalizeModeInput> for NormalizeMode {
    open spec fn obeys_from_spec() -> bool {
        true
    }

    open spec fn from_spec(v: NormalizeModeInput) -> NormalizeMode {
        normalize_mode_of(v)
    }
}

impl From<DetectionModeInput> for DetectionMode {
    fn from(value: DetectionModeInput) -> (r: DetectionMode) {
        match value {
            DetectionModeInput::SpectralEnergy => DetectionMode::SpectralEnergy,
            DetectionModeInput::SpectralFlux => DetectionMode::SpectralFlux,
        }
    }
}

impl FromSpecImpl<DetectionModeInput> for DetectionMode {
    open spec fn obeys_from_spec() -> bool {
        true
    }

    open spec fn from_spec(v: DetectionModeInput) -> DetectionMode {
        detection_mode_of(v)
    }
}

impl From<SvgShapeInput> for SvgShape {
    fn from(value: SvgShapeInput) -> (r: SvgShape) {
        match value {
            SvgShapeInput::Strip => SvgShape::Strip,
            SvgShapeInput::Waveform => SvgShape::Waveform,
            SvgShapeInput::SplitStacked => SvgShape::SplitStacked,
            SvgShapeInput::SplitWaveform => SvgShape::SplitWaveform,
            SvgShapeInput::SplitLanes => SvgShape::SplitLanes,
            SvgShapeInput::SplitCentrifugal => SvgShape::SplitCentrifugal,
            SvgShapeInput::SplitOverlapping => SvgShape::SplitOverlapping,
        }
    }
}

impl FromSpecImpl<SvgShapeInput> for SvgShape {
    open spec fn obeys_from_spec() -> bool {
        true
    }

    open spec fn from_spec(v: SvgShapeInput) -> SvgShape {
        svg_shape_of(v)
    }
}

impl From<ThemeInput> for Theme {
    fn from(value: ThemeInput) -> (r: Theme) {
        match value {
            ThemeInput::Classic => Theme::Classic,
            ThemeInput::Cool => Theme::Cool,
            ThemeInput::Light => Theme::Light,
        }
    }
}

impl FromSpecImpl<ThemeInput> for Theme {
    open spec fn obeys_from_spec() -> bool {
        true
    }

    open spec fn from_spec(v: ThemeInput) -> Theme {
        theme_of(v)
    }
}

/// A partial update of [`SvgOptions`]: each present field replaces the option.
#[derive(Debug, Clone)]
pub struct SvgOptionsPatch {
    pub width: Option<u32>,
    pub height: Option<u32>,
    pub shape: Option<SvgShapeInput>,
    pub background: Option<String>,
    pub max_gradient_stops: Option<usize>,
}

impl Default for SvgOptionsPatch {
    fn default() -> (p: SvgOptionsPatch)
        ensures
            p.width is None,
            p.height is None,
            p.shape is None,
            p.background is None,
            p.max_gradient_stops is None,
    {
        SvgOptionsPatch {
            width: None,
            height: None,
            shape: None,
            background: None,
            max_gradient_stops: None,
        }
    }
}

/// A partial update of [`PngOptions`]: each present field replaces the option.
#[derive(Debug, Clone, Copy, PartialEq, Eq, Structural)]
pub struct PngOptionsPatch {
    pub width: Option<u32>,
    pub height: Option<u32>,
    pub shape: Option<SvgShapeInput>,
}

impl Default for PngOptionsPatch {
    fn default() -> (p: PngOptionsPatch)
        ensures
            p.width is None,
            p.height is None,
            p.shape is None,
    {
        PngOptionsPatch { width: None, height: None, shape: None }
    }
}

/// The background names that SVG output accepts.
pub open spec fn is_background_name(s: Seq<char>) -> bool {
    s == "transparent"@ || s == "black"@ || s == "white"@ || s == "none"@
}

/// The message given for a background name outside the accepted four.
pub open spec fn unsupported_background_text() -> Seq<char> {
    "unsupported background; use one of: transparent, black, white, none"@
}

/// Maps a background name to the constant that SVG output writes; any other
/// name is refused with a message that lists the accepted ones.
pub fn parse_svg_background(background: &str) -> (r: Result<&'static str, String>)
    ensures
        r matches Ok(b) ==> b@ == background@,
        r is Ok <==> is_background_name(background@),
        r matches Err(m) ==> m@ == unsupported_background_text(),
{
    if str_eq(background, "transparent") {
        Ok("transparent")
    } else if str_eq(background, "black") {
        Ok("black")
    } else if str_eq(background, "white") {
        Ok("white")
    } else if str_eq(background, "none") {
        Ok("none")
    } else {
        Err(str_literal_to_string("unsupported background; use one of: transparent, black, white, none"))
    }
}

/// `patched` is what `before` becomes when every field that `patch` holds,
/// the background aside, replaces it.
pub open spec fn svg_fields_patched(
    before: SvgOptions,
    patch: SvgOptionsPatch,
    patched: SvgOptions,
) -> bool {
    &&& patched.width == (match patch.width { Some(v) => v, None => before.width })
    &&& patched.height == (match patch.height { Some(v) => v, None => before.height })
    &&& patched.shape == (match patch.shape { Some(v) => svg_shape_of(v), None => before.shape })
    &&& patched.max_gradient_stops == (match patch.max_gradient_stops {
        Some(v) => v,
        None => before.max_gradient_stops,
    })
}

/// Applies a partial SVG options update. Width, height, shape and the gradient
/// stop cap are replaced whenever the patch holds them; the background is
/// replaced only when the patch names one of the accepted backgrounds, and an
/// unaccepted name is an error (the other fields are updated even then).
pub fn apply_svg_patch(options: &mut SvgOptions, patch: SvgOptionsPatch) -> (r: Result<(), String>)
    ensures
        svg_fields_patched(*old(options), patch, *final(options)),
        r is Ok <==> (match patch.background {
            Some(b) => is_background_name(b@),
            None => true,
        }),
        r matches Err(m) ==> m@ == unsupported_background_text(),
        final(options).background@ == (match patch.background {
            Some(b) => if is_background_name(b@) { b@ } else { old(options).background@ },
            None => old(options).background@,
        }),
{
    if let Some(v) = patch.width {
        options.width = v;
    }
    if let Some(v) = patch.height {
        options.height = v;
    }
    if let Some(v) = patch.shape {
        options.shape = v.into();
    }
    if let Some(v) = patch.max_gradient_stops {
        options.max_gradient_stops = v;
    }
    if let Some(v) = patch.background {
        match parse_svg_background(v.as_str()) {
            Ok(b) => {
                options.background = b;
            },
            Err(e) => {
                return Err(e);
            },
        }
    }
    Ok(())
}

/// Applies a partial PNG options update: each field the patch holds replaces the option.
pub fn apply_png_patch(options: &mut PngOptions, patch: PngOptionsPatch)
    ensures
        final(options).width == (match patch.width { Some(v) => v, None => old(options).width }),
        final(options).height == (match patch.height { Some(v) => v, None => old(options).height }),
        final(options).shape == (match patch.shape {
            Some(v) => svg_shape_of(v),
            None => old(options).shape,
        }),
{
    if let Some(v) = patch.width {
        options.width = v;
    }
    if let Some(v) = patch.height {
        options.height = v;
    }
    if let Some(v) = patch.shape {
        options.shape = v.into();
    }
}

} // verus!

verus! {

/// Unicode `White_Space`, the set that `str::trim` removes.
pub open spec fn is_white_space(c: char) -> bool {
    let u = c as u32;
    ||| 0x09 <= u <= 0x0D
    ||| u == 0x20
    ||| u == 0x85
    ||| u == 0xA0
    ||| u == 0x1680
    ||| 0x2000 <= u <= 0x200A
    ||| u == 0x2028
    ||| u == 0x2029
    ||| u == 0x202F
    ||| u == 0x205F
    ||| u == 0x3000
}

/// A text without its leading white space.
pub open spec fn trim_start_white(s: Seq<char>) -> Seq<char>
    decreases s.len(),
{
    if s.len() > 0 && is_white_space(s[0]) {
        trim_start_white(s.drop_first())
    } else {
        s
    }
}

/// A text without its trailing white space.
pub open spec fn trim_end_white(s: Seq<char>) -> Seq<char>
    decreases s.len(),
{
    if s.len() > 0 && is_white_space(s.last()) {
        trim_end_white(s.drop_last())
    } else {
        s
    }
}

/// A text without its leading `#` characters.
pub open spec fn strip_leading_hashes(s: Seq<char>) -> Seq<char>
    decreases s.len(),
{
    if s.len() > 0 && s[0] == '#' {
        strip_leading_hashes(s.drop_first())
    } else {
        s
    }
}

/// What is left of a color text once surrounding white space and leading `#`s are gone.
pub open spec fn color_digits(s: Seq<char>) -> Seq<char> {
    strip_leading_hashes(trim_end_white(trim_start_white(s)))
}

/// The value of a hexadecimal digit, either case.
pub open spec fn hex_digit_value(c: char) -> Option<u8> {
    let u = c as u32;
    if 48 <= u <= 57 {
        Some((u - 48) as u8)
    } else if 65 <= u <= 70 {
        Some((u - 55) as u8)
    } else if 97 <= u <= 102 {
        Some((u - 87) as u8)
    } else {
        None
    }
}

/// A two-character field read as a base-16 byte: two digits, or `+` and one digit.
pub open spec fn hex_byte(a: char, b: char) -> Option<u8> {
    if a == '+' {
        hex_digit_value(b)
    } else {
        match (hex_digit_value(a), hex_digit_value(b)) {
            (Some(x), Some(y)) => Some((16 * x + y) as u8),
            _ => None,
        }
    }
}

/// The channels that a `#rrggbb` color text denotes, if it denotes one.
pub open spec fn hex_color_channels(s: Seq<char>) -> Option<(u8, u8, u8)> {
    let t = color_digits(s);
    if t.len() == 6 {
        match (hex_byte(t[0], t[1]), hex_byte(t[2], t[3]), hex_byte(t[4], t[5])) {
            (Some(r), Some(g), Some(b)) => Some((r, g, b)),
            _ => None,
        }
    } else {
        None
    }
}

/// Inputs on which reading a color would split the text inside a character:
/// six bytes long once trimmed, but with a multi-byte character across byte 2 or 4.
pub open spec fn color_text_splits_char(s: Seq<char>) -> bool {
    let bytes = vstd::utf8::encode_utf8(color_digits(s));
    bytes.len() == 6 && !(vstd::utf8::is_char_boundary(bytes, 2)
        && vstd::utf8::is_char_boundary(bytes, 4))
}

/// A color written `#rrggbb` with lowercase hex digits.
pub open spec fn hex_color_text(r: u8, g: u8, b: u8) -> Seq<char> {
    seq![
        '#',
        hex_lower(r as nat / 16),
        hex_lower(r as nat % 16),
        hex_lower(g as nat / 16),
        hex_lower(g as nat % 16),
        hex_lower(b as nat / 16),
        hex_lower(b as nat % 16),
    ]
}

proof fn lemma_hex_digit_reads_back(d: nat)
    requires
        d < 16,
    ensures
        hex_digit_value(hex_lower(d)) == Some(d as u8),
        hex_lower(d) != '#' && hex_lower(d) != '+' && !is_white_space(hex_lower(d)),
{
}

/// Every color reads back from its `#rrggbb` text: each pair of hex digits is
/// the channel's value, high digit first.
pub proof fn lemma_hex_color_reads_back(r: u8, g: u8, b: u8)
    ensures
        hex_color_channels(hex_color_text(r, g, b)) == Some((r, g, b)),
{
    let t = hex_color_text(r, g, b);
    lemma_hex_digit_reads_back(r as nat / 16);
    lemma_hex_digit_reads_back(r as nat % 16);
    lemma_hex_digit_reads_back(g as nat / 16);
    lemma_hex_digit_reads_back(g as nat % 16);
    lemma_hex_digit_reads_back(b as nat / 16);
    lemma_hex_digit_reads_back(b as nat % 16);
    assert(!is_white_space(t[0]));
    assert(trim_start_white(t) == t);
    assert(!is_white_space(t.last()));
    assert(trim_end_white(t) == t);
    let rest = t.drop_first();
    assert(rest[0] != '#');
    assert(strip_leading_hashes(rest) == rest);
    assert(strip_leading_hashes(t) == rest);
    assert(color_digits(t) == rest);
    assert(rest.len() == 6);
    assert(hex_byte(rest[0], rest[1]) == Some(r));
    assert(hex_byte(rest[2], rest[3]) == Some(g));
    assert(hex_byte(rest[4], rest[5]) == Some(b));
}

fn is_white_space_exec(c: char) -> (r: bool)
    ensures
        r == is_white_space(c),
{
    let u = c as u32;
    (0x09 <= u && u <= 0x0D) || u == 0x20 || u == 0x85 || u == 0xA0 || u == 0x1680 || (0x2000
        <= u && u <= 0x200A) || u == 0x2028 || u == 0x2029 || u == 0x202F || u == 0x205F || u
        == 0x3000
}

fn hex_digit_exec(c: char) -> (r: Option<u8>)
    ensures
        r == hex_digit_value(c),
{
    let u = c as u32;
    if 48 <= u && u <= 57 {
        Some((u - 48) as u8)
    } else if 65 <= u && u <= 70 {
        Some((u - 55) as u8)
    } else if 97 <= u && u <= 102 {
        Some((u - 87) as u8)
    } else {
        None
    }
}

fn hex_byte_exec(a: char, b: char) -> (r: Option<u8>)
    ensures
        r == hex_byte(a, b),
{
    if a == '+' {
        hex_digit_exec(b)
    } else {
        match (hex_digit_exec(a), hex_digit_exec(b)) {
            (Some(x), Some(y)) => Some(16 * x + y),
            _ => None,
        }
    }
}

/// Reads a `#rrggbb` color (surrounding white space and any number of leading
/// `#` allowed; each field may also be written `+d`); anything else reads as black.
pub fn parse_hex_color(s: &str) -> (rgb: [u8; 3])
    requires
        !color_text_splits_char(s@),
    ensures
        match hex_color_channels(s@) {
            Some((r, g, b)) => rgb[0] == r && rgb[1] == g && rgb[2] == b,
            None => rgb[0] == 0 && rgb[1] == 0 && rgb[2] == 0,
        },
{
    let v = chars_of(s);
    let n = v.len();
    let ghost sv = s@;
    let mut i: usize = 0;
    assert(sv.subrange(0, n as int) =~= sv);
    while i < n && is_white_space_exec(v[i])
        invariant
            v@ == sv,
            n == sv.len(),
            i <= n,
            trim_start_white(sv) == trim_start_white(sv.subrange(i as int, n as int)),
        decreases n - i,
    {
        assert(sv.subrange(i as int, n as int).drop_first() =~= sv.subrange(i + 1, n as int));
        i = i + 1;
    }
    assert(trim_start_white(sv) == sv.subrange(i as int, n as int));
    let mut j: usize = n;
    while j > i && is_white_space_exec(v[j - 1])
        invariant
            v@ == sv,
            n == sv.len(),
            i <= j <= n,
            trim_end_white(trim_start_white(sv)) == trim_end_white(
                sv.subrange(i as int, j as int),
            ),
        decreases j,
    {
        assert(sv.subrange(i as int, j as int).drop_last() =~= sv.subrange(i as int, j - 1));
        j = j - 1;
    }
    assert(trim_end_white(trim_start_white(sv)) == sv.subrange(i as int, j as int));
    let mut k: usize = i;
    while k < j && v[k] == '#'
        invariant
            v@ == sv,
            n == sv.len(),
            i <= k <= j <= n,
            color_digits(sv) == strip_leading_hashes(sv.subrange(k as int, j as int)),
        decreases j - k,
    {
        assert(sv.subrange(k as int, j as int).drop_first() =~= sv.subrange(k + 1, j as int));
        k = k + 1;
    }
    assert(color_digits(sv) == sv.subrange(k as int, j as int));
    if j - k == 6 {
        let r = hex_byte_exec(v[k], v[k + 1]);
        let g = hex_byte_exec(v[k + 2], v[k + 3]);
        let b = hex_byte_exec(v[k + 4], v[k + 5]);
        match (r, g, b) {
            (Some(r), Some(g), Some(b)) => {
                return [r, g, b];
            },
            _ => {},
        }
    }
    [0, 0, 0]
}

} // verus!
