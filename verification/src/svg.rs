use vstd::prelude::*;

use crate::text::{decimal, push_decimal};
use crate::types::{SvgOptions, SvgShape};

verus! {

/// Estimated output bytes per frame for strip and waveform SVG.
pub const SVG_ESTIMATED_BYTES_PER_FRAME: usize = 96;

/// Estimated output bytes per rectangle for split SVG layouts.
pub const SVG_SPLIT_ESTIMATED_BYTES_PER_RECT: usize = 72;

/// Estimated bytes of the CSS style block of split SVG layouts.
pub const SVG_STYLE_BLOCK_BYTES: usize = 256;

/// Whether a shape is one of the per-band (split) layouts.
pub open spec fn is_split(shape: SvgShape) -> bool {
    !(shape is Strip || shape is Waveform)
}

/// Whether `shape` is one of the split-band layouts.
pub fn is_split_shape(shape: SvgShape) -> (r: bool)
    ensures
        r == is_split(shape),
{
    match shape {
        SvgShape::SplitStacked | SvgShape::SplitWaveform | SvgShape::SplitLanes
        | SvgShape::SplitCentrifugal | SvgShape::SplitOverlapping => true,
        _ => false,
    }
}

/// `a * b`, or `usize::MAX` when the product does not fit.
pub open spec fn saturating_product(a: nat, b: nat) -> nat {
    if a * b <= usize::MAX {
        a * b
    } else {
        usize::MAX as nat
    }
}

/// Rectangles per frame that a split layout draws at most.
pub open spec fn rects_per_frame(shape: SvgShape) -> nat {
    match shape {
        SvgShape::SplitWaveform | SvgShape::SplitCentrifugal => 6,
        _ => 3,
    }
}

/// The capacity that SVG output reserves for `frame_count` frames of `shape`.
pub open spec fn svg_capacity_of(frame_count: nat, shape: SvgShape) -> nat {
    if is_split(shape) {
        saturating_product(frame_count, rects_per_frame(shape) * 72) + 256 + 512
    } else {
        saturating_product(frame_count, 96) + 512
    }
}

/// The sums in the estimate stay within `usize`.
pub open spec fn svg_capacity_fits(frame_count: nat, shape: SvgShape) -> bool {
    &&& saturating_product(frame_count, 96) + 512 <= usize::MAX
    &&& svg_capacity_of(frame_count, shape) <= usize::MAX
}

fn saturating_mul_usize(a: usize, b: usize) -> (r: usize)
    ensures
        r == saturating_product(a as nat, b as nat),
{
    match a.checked_mul(b) {
        Some(v) => v,
        None => usize::MAX,
    }
}

/// Bytes to reserve for the SVG text of `frame_count` frames drawn as `shape`.
pub fn svg_capacity(frame_count: usize, shape: SvgShape) -> (r: usize)
    requires
        svg_capacity_fits(frame_count as nat, shape),
    ensures
        r == svg_capacity_of(frame_count as nat, shape),
{
    let base = saturating_mul_usize(frame_count, SVG_ESTIMATED_BYTES_PER_FRAME) + 512;
    match shape {
        SvgShape::Strip | SvgShape::Waveform => base,
        SvgShape::SplitStacked => {
            saturating_mul_usize(frame_count, 3 * SVG_SPLIT_ESTIMATED_BYTES_PER_RECT)
                + SVG_STYLE_BLOCK_BYTES + 512
        },
        SvgShape::SplitWaveform | SvgShape::SplitCentrifugal => {
            saturating_mul_usize(frame_count, 6 * SVG_SPLIT_ESTIMATED_BYTES_PER_RECT)
                + SVG_STYLE_BLOCK_BYTES + 512
        },
        SvgShape::SplitLanes => {
            saturating_mul_usize(frame_count, 3 * SVG_SPLIT_ESTIMATED_BYTES_PER_RECT)
                + SVG_STYLE_BLOCK_BYTES + 512
        },
        SvgShape::SplitOverlapping => {
            saturating_mul_usize(frame_count, 3 * SVG_SPLIT_ESTIMATED_BYTES_PER_RECT)
                + SVG_STYLE_BLOCK_BYTES + 512
        },
    }
}

/// `r,g,b` in decimal.
pub open spec fn rgb_text(c: [u8; 3]) -> Seq<char> {
    decimal(c[0] as nat) + ","@ + decimal(c[1] as nat) + ","@ + decimal(c[2] as nat)
}

fn push_rgb(out: &mut String, c: [u8; 3])
    ensures
        final(out)@ =~= old(out)@ + rgb_text(c),
{
    push_decimal(out, c[0] as u64);
    out.append(",");
    push_decimal(out, c[1] as u64);
    out.append(",");
    push_decimal(out, c[2] as u64);
}

/// The band color at `i`, or `fallback` when the palette is shorter.
pub open spec fn band_color_or(colors: Seq<[u8; 3]>, i: int, fallback: [u8; 3]) -> [u8; 3] {
    if i < colors.len() {
        colors[i]
    } else {
        fallback
    }
}

/// The CSS block that colors the bass, mid and treble classes of split layouts
/// with the first three band colors (the split palette fills in missing ones).
pub open spec fn split_style_text(colors: Seq<[u8; 3]>) -> Seq<char> {
    "<style>.mb-bass{fill:rgb("@ + rgb_text(band_color_or(colors, 0, [220, 20, 180]))
        + ")}.mb-mid{fill:rgb("@ + rgb_text(band_color_or(colors, 1, [240, 120, 0]))
        + ")}.mb-treble{fill:rgb("@ + rgb_text(band_color_or(colors, 2, [0, 160, 240]))
        + ")}</style>"@
}

fn band_color_or_exec(colors: &Vec<[u8; 3]>, i: usize, fallback: [u8; 3]) -> (c: [u8; 3])
    ensures
        c == band_color_or(colors@, i as int, fallback),
{
    if i < colors.len() {
        colors[i]
    } else {
        fallback
    }
}

/// Writes the CSS style block of split layouts.
pub fn write_split_style_block(out: &mut String, band_colors: &Vec<[u8; 3]>)
    ensures
        final(out)@ =~= old(out)@ + split_style_text(band_colors@),
{
    let bass = band_color_or_exec(band_colors, 0, [220, 20, 180]);
    let mid = band_color_or_exec(band_colors, 1, [240, 120, 0]);
    let treble = band_color_or_exec(band_colors, 2, [0, 160, 240]);
    out.append("<style>.mb-bass{fill:rgb(");
    push_rgb(out, bass);
    out.append(")}.mb-mid{fill:rgb(");
    push_rgb(out, mid);
    out.append(")}.mb-treble{fill:rgb(");
    push_rgb(out, treble);
    out.append(")}</style>");
}

/// The opening `<svg>` tag and the background rectangle.
pub open spec fn svg_shell_text(w: nat, h: nat, background: Seq<char>) -> Seq<char> {
    "<svg xmlns=\"http://www.w3.org/2000/svg\" viewBox=\"0 0 "@ + decimal(w) + " "@ + decimal(h)
        + "\" width=\""@ + decimal(w) + "\" height=\""@ + decimal(h) + "\">"@
        + "<rect x=\"0\" y=\"0\" width=\""@ + decimal(w) + "\" height=\""@ + decimal(h)
        + "\" fill=\""@ + background + "\"/>"@
}

/// A dimension as drawn: zero counts as one.
pub open spec fn at_least_one(v: u32) -> u32 {
    if v == 0 {
        1
    } else {
        v
    }
}

/// Writes the `<svg>` element's opening tag and its background rectangle; both
/// dimensions are clamped to at least one. Returns the clamped width and height.
pub fn write_svg_shell(out: &mut String, options: &SvgOptions) -> (dims: (u32, u32))
    ensures
        dims.0 == at_least_one(options.width),
        dims.1 == at_least_one(options.height),
        dims.0 >= 1 && dims.1 >= 1,
        options.width >= 1 ==> dims.0 == options.width,
        options.height >= 1 ==> dims.1 == options.height,
        final(out)@ =~= old(out)@ + svg_shell_text(
            dims.0 as nat,
            dims.1 as nat,
            options.background@,
        ),
{
    let width = if options.width == 0 { 1 } else { options.width };
    let height = if options.height == 0 { 1 } else { options.height };
    out.append("<svg xmlns=\"http://www.w3.org/2000/svg\" viewBox=\"0 0 ");
    push_decimal(out, width as u64);
    out.append(" ");
    push_decimal(out, height as u64);
    out.append("\" width=\"");
    push_decimal(out, width as u64);
    out.append("\" height=\"");
    push_decimal(out, height as u64);
    out.append("\">");
    out.append("<rect x=\"0\" y=\"0\" width=\"");
    push_decimal(out, width as u64);
    out.append("\" height=\"");
    push_decimal(out, height as u64);
    out.append("\" fill=\"");
    out.append(options.background);
    out.append("\"/>");
    (width, height)
}

} // verus!

verus! {

/// `i * m / d` rounded to the nearest integer, halves rounding up.
pub open spec fn rounded_quotient(i: nat, m: nat, d: nat) -> nat {
    (i * m) / d + if 2 * ((i * m) % d) >= d {
        1nat
    } else {
        0nat
    }
}

/// The frame index of the `i`-th of `max_stops` evenly spread stops over `frame_count` frames.
pub open spec fn spread_index(i: nat, frame_count: nat, max_stops: nat) -> nat {
    rounded_quotient(i, (frame_count - 1) as nat, (max_stops - 1) as nat)
}

/// The frames that carry gradient stops: every frame when there are at most
/// `max_stops`, otherwise `max_stops` frames spread evenly from the first to the
/// last (with a single allowed stop, the first and the last frame).
pub open spec fn gradient_stops(frame_count: nat, max_stops: nat) -> Seq<usize> {
    if frame_count == 0 {
        Seq::empty()
    } else if frame_count <= max_stops {
        Seq::new(frame_count, |i: int| i as usize)
    } else if max_stops == 1 {
        seq![0usize, (frame_count - 1) as usize]
    } else {
        Seq::new(max_stops, |i: int| spread_index(i as nat, frame_count, max_stops) as usize)
    }
}

proof fn lemma_rounded_quotient_step(i: nat, m: nat, d: nat)
    requires
        0 < d < m,
    ensures
        rounded_quotient(i + 1, m, d) > rounded_quotient(i, m, d),
{
    let p = i * m;
    let p2 = (i + 1) * m;
    assert(p2 == p + m) by (nonlinear_arith)
        requires
            p == i * m,
            p2 == (i + 1) * m,
    ;
    let q = p / d;
    let r = p % d;
    let q2 = p2 / d;
    let r2 = p2 % d;
    assert(p == q * d + r && 0 <= r < d) by (nonlinear_arith)
        requires
            q == p / d,
            r == p % d,
            d > 0,
    ;
    assert(p2 == q2 * d + r2 && 0 <= r2 < d) by (nonlinear_arith)
        requires
            q2 == p2 / d,
            r2 == p2 % d,
            d > 0,
    ;
    assert(q2 >= q + 1) by (nonlinear_arith)
        requires
            p == q * d + r,
            0 <= r < d,
            p2 == q2 * d + r2,
            0 <= r2 < d,
            p2 == p + m,
            m > d,
    ;
    if q2 == q + 1 {
        assert(r2 > r) by (nonlinear_arith)
            requires
                p == q * d + r,
                p2 == q2 * d + r2,
                p2 == p + m,
                q2 == q + 1,
                m > d,
        ;
    }
}

proof fn lemma_rounded_quotient_ends(m: nat, d: nat)
    requires
        d > 0,
    ensures
        rounded_quotient(0, m, d) == 0,
        rounded_quotient(d, m, d) == m,
{
    assert((0 * m) / d == 0 && (0 * m) % d == 0) by (nonlinear_arith)
        requires
            d > 0,
    ;
    assert((d * m) / d == m && (d * m) % d == 0) by (nonlinear_arith)
        requires
            d > 0,
    ;
}

proof fn lemma_rounded_quotient_increasing(i: nat, j: nat, m: nat, d: nat)
    requires
        0 < d < m,
        i < j,
    ensures
        rounded_quotient(i, m, d) < rounded_quotient(j, m, d),
    decreases j - i,
{
    lemma_rounded_quotient_step(i, m, d);
    if i + 1 < j {
        lemma_rounded_quotient_increasing(i + 1, j, m, d);
    }
}

proof fn lemma_rounded_quotient_bounded(i: nat, m: nat, d: nat)
    requires
        0 < d < m,
        i <= d,
    ensures
        rounded_quotient(i, m, d) <= m,
{
    lemma_rounded_quotient_ends(m, d);
    if i < d {
        lemma_rounded_quotient_increasing(i, d, m, d);
    }
}

fn spread_index_exec(i: usize, frame_count: usize, max_stops: usize) -> (idx: usize)
    requires
        2 <= max_stops < frame_count,
        i < max_stops,
    ensures
        idx == spread_index(i as nat, frame_count as nat, max_stops as nat),
{
    let m: u128 = (frame_count - 1) as u128;
    let d: u128 = (max_stops - 1) as u128;
    let iw: u128 = i as u128;
    assert(iw * m <= u128::MAX) by (nonlinear_arith)
        requires
            iw <= u64::MAX,
            m <= u64::MAX,
    ;
    let p: u128 = iw * m;
    let q: u128 = p / d;
    let r: u128 = p % d;
    proof {
        lemma_rounded_quotient_bounded(i as nat, m as nat, d as nat);
        assert(r < d);
    }
    let idx: u128 = if 2 * r >= d {
        q + 1
    } else {
        q
    };
    idx as usize
}

/// Indices of the frames that carry gradient stops, at most `max_stops` of them
/// once `max_stops` is at least two.
///
/// The spread indices are `i * (frame_count - 1) / (max_stops - 1)` rounded
/// exactly, halves going up. A computation in `f64` (divide, multiply, round)
/// can land on either side of an exact half: for 46 frames and 11 stops,
/// index 7 is exactly 31.5 and is rounded here to 32, where `0.7 * 45.0`
/// in `f64` gives 31.499999999999996 and rounds to 31. While
/// `(frame_count - 1) * (max_stops - 1)` stays below 2^51 only such exact
/// halves can differ: elsewhere the `f64` error is smaller than the distance
/// to the nearest half, and both give the same index.
pub fn gradient_stop_indices(frame_count: usize, max_stops: usize) -> (out: Vec<usize>)
    requires
        frame_count == 0 || max_stops >= 1,
    ensures
        out@ == gradient_stops(frame_count as nat, max_stops as nat),
{
    if frame_count == 0 {
        return Vec::new();
    }
    if frame_count <= max_stops {
        let mut out: Vec<usize> = Vec::new();
        let mut i: usize = 0;
        while i < frame_count
            invariant
                i <= frame_count,
                out@ == Seq::new(i as nat, |k: int| k as usize),
            decreases frame_count - i,
        {
            out.push(i);
            i = i + 1;
            assert(out@ =~= Seq::new(i as nat, |k: int| k as usize));
        }
        return out;
    }
    if max_stops == 1 {
        let mut out: Vec<usize> = Vec::new();
        out.push(0);
        out.push(frame_count - 1);
        assert(out@ =~= seq![0usize, (frame_count - 1) as usize]);
        return out;
    }
    let ghost m = (frame_count - 1) as nat;
    let ghost d = (max_stops - 1) as nat;
    let mut out: Vec<usize> = Vec::with_capacity(max_stops);
    let mut i: usize = 0;
    while i < max_stops
        invariant
            2 <= max_stops < frame_count,
            m == frame_count - 1,
            d == max_stops - 1,
            i <= max_stops,
            out@ == Seq::new(
                i as nat,
                |k: int| spread_index(k as nat, frame_count as nat, max_stops as nat) as usize,
            ),
        decreases max_stops - i,
    {
        let idx = spread_index_exec(i, frame_count, max_stops);
        if i > 0 {
            proof {
                lemma_rounded_quotient_step((i - 1) as nat, m, d);
                lemma_rounded_quotient_bounded(i as nat, m, d);
            }
            assert(out@.last() != idx);
        }
        if out.len() == 0 || out[out.len() - 1] != idx {
            out.push(idx);
        }
        i = i + 1;
        assert(out@ =~= Seq::new(
            i as nat,
            |k: int| spread_index(k as nat, frame_count as nat, max_stops as nat) as usize,
        ));
    }
    proof {
        lemma_rounded_quotient_ends(m, d);
    }
    assert(out@.last() == frame_count - 1);
    if out[out.len() - 1] != frame_count - 1 {
        out.push(frame_count - 1);
    }
    out
}

/// For at least two allowed stops, the chosen frames are at most that many,
/// strictly increasing, within range, and run from the first frame to the last.
pub proof fn lemma_gradient_stops_capped(frame_count: nat, max_stops: nat)
    requires
        max_stops >= 2,
        frame_count >= 1,
        frame_count <= usize::MAX,
    ensures
        gradient_stops(frame_count, max_stops).len() <= max_stops,
        gradient_stops(frame_count, max_stops).len() >= 1,
        gradient_stops(frame_count, max_stops)[0] == 0,
        gradient_stops(frame_count, max_stops).last() == frame_count - 1,
        forall|a: int, b: int|
            0 <= a < b < gradient_stops(frame_count, max_stops).len() ==> gradient_stops(
                frame_count,
                max_stops,
            )[a] < gradient_stops(frame_count, max_stops)[b],
        forall|a: int|
            0 <= a < gradient_stops(frame_count, max_stops).len() ==> gradient_stops(
                frame_count,
                max_stops,
            )[a] < frame_count,
{
    let s = gradient_stops(frame_count, max_stops);
    if frame_count > max_stops {
        let m = (frame_count - 1) as nat;
        let d = (max_stops - 1) as nat;
        lemma_rounded_quotient_ends(m, d);
        assert forall|a: int| 0 <= a < s.len() implies s[a] < frame_count by {
            lemma_rounded_quotient_bounded(a as nat, m, d);
        }
        assert forall|a: int, b: int| 0 <= a < b < s.len() implies s[a] < s[b] by {
            lemma_rounded_quotient_increasing(a as nat, b as nat, m, d);
            lemma_rounded_quotient_bounded(b as nat, m, d);
        }
    }
}


/// Each chosen frame is the frame nearest to its evenly spread position: with
/// `max_stops` stops (at least two) over more frames, stop `i` lies at
/// `i * (frame_count - 1) / (max_stops - 1)` up to half a frame, and an exact
/// half goes to the later frame. With no more frames than stops, every frame
/// is a stop, in order.
pub proof fn lemma_gradient_stops_nearest(frame_count: nat, max_stops: nat)
    requires
        max_stops >= 1,
        frame_count <= usize::MAX,
    ensures
        1 <= frame_count <= max_stops ==> forall|i: int|
            0 <= i < frame_count ==> #[trigger] gradient_stops(frame_count, max_stops)[i] == i,
        1 <= frame_count <= max_stops ==> gradient_stops(frame_count, max_stops).len()
            == frame_count,
        2 <= max_stops < frame_count ==> gradient_stops(frame_count, max_stops).len()
            == max_stops,
        2 <= max_stops < frame_count ==> forall|i: int|
            0 <= i < max_stops ==> {
                let s = #[trigger] gradient_stops(frame_count, max_stops)[i] as int;
                let d = max_stops - 1;
                let target = i * (frame_count - 1);
                &&& 2 * (s * d - target) <= d
                &&& 2 * (target - s * d) < d
            },
{
    if 2 <= max_stops < frame_count {
        let m = (frame_count - 1) as nat;
        let d = (max_stops - 1) as nat;
        assert forall|i: int| 0 <= i < max_stops implies {
            let s = #[trigger] gradient_stops(frame_count, max_stops)[i] as int;
            &&& 2 * (s * d - i * (frame_count - 1)) <= d
            &&& 2 * (i * (frame_count - 1) - s * d) < d
        } by {
            let p = i * m;
            let q = p / d as int;
            let r = p % d as int;
            assert(p == q * d + r && 0 <= r < d) by (nonlinear_arith)
                requires
                    q == p / d as int,
                    r == p % d as int,
                    d > 0,
            ;
            lemma_rounded_quotient_bounded(i as nat, m, d);
            let s = rounded_quotient(i as nat, m, d);
            assert(s == q + if 2 * r >= d { 1int } else { 0int });
            assert(s * d == q * d + if 2 * r >= d { d as int } else { 0int }) by (nonlinear_arith)
                requires
                    s == q + if 2 * r >= d { 1int } else { 0int },
            ;
        }
    }
}
} // verus!

verus! {

/// One color stop of the mood gradient: its offset, already written as
/// percentage text, and its color.
#[derive(Debug, Clone)]
pub struct GradientStop {
    pub offset: String,
    pub color: [u8; 3],
}

/// The markup of one gradient stop.
pub open spec fn stop_text(s: GradientStop) -> Seq<char> {
    "<stop offset=\""@ + s.offset@ + "%\" stop-color=\"rgb("@ + rgb_text(s.color) + ")\"/>"@
}

/// The markup of a run of gradient stops, in order.
pub open spec fn stops_text(stops: Seq<GradientStop>) -> Seq<char>
    decreases stops.len(),
{
    if stops.len() == 0 {
        Seq::empty()
    } else {
        stops_text(stops.drop_last()) + stop_text(stops.last())
    }
}

/// The id of the gradient that fills and strokes non-split shapes.
pub open spec fn gradient_id_text() -> Seq<char> {
    "mood-gradient"@
}

/// The `<defs>` element: the split-layout style block when asked for, then the
/// horizontal mood gradient across `width` with the given stops.
pub open spec fn gradient_defs_text(
    band_colors: Seq<[u8; 3]>,
    include_style: bool,
    width: nat,
    stops: Seq<GradientStop>,
) -> Seq<char> {
    "<defs>"@ + (if include_style {
        split_style_text(band_colors)
    } else {
        Seq::empty()
    }) + "<linearGradient id=\""@ + gradient_id_text() + "\" x1=\"0\" y1=\"0\" x2=\""@
        + decimal(width) + "\" y2=\"0\" gradientUnits=\"userSpaceOnUse\">"@ + stops_text(stops)
        + "</linearGradient></defs>"@
}

fn write_stop(out: &mut String, stop: &GradientStop)
    ensures
        final(out)@ =~= old(out)@ + stop_text(*stop),
{
    out.append("<stop offset=\"");
    out.append(stop.offset.as_str());
    out.append("%\" stop-color=\"rgb(");
    push_rgb(out, stop.color);
    out.append(")\"/>");
}

/// Writes the `<defs>` element and returns the gradient's id.
pub fn write_gradient_defs(
    out: &mut String,
    band_colors: &Vec<[u8; 3]>,
    width: u32,
    include_style: bool,
    stops: &Vec<GradientStop>,
) -> (id: &'static str)
    ensures
        id@ == gradient_id_text(),
        final(out)@ =~= old(out)@ + gradient_defs_text(
            band_colors@,
            include_style,
            width as nat,
            stops@,
        ),
{
    let ghost start = out@;
    out.append("<defs>");
    if include_style {
        write_split_style_block(out, band_colors);
    }
    let gradient_id = "mood-gradient";
    out.append("<linearGradient id=\"");
    out.append(gradient_id);
    out.append("\" x1=\"0\" y1=\"0\" x2=\"");
    push_decimal(out, width as u64);
    out.append("\" y2=\"0\" gradientUnits=\"userSpaceOnUse\">");
    let ghost head = out@;
    let mut i: usize = 0;
    while i < stops.len()
        invariant
            i <= stops.len(),
            out@ =~= head + stops_text(stops@.subrange(0, i as int)),
        decreases stops.len() - i,
    {
        write_stop(out, &stops[i]);
        i = i + 1;
        assert(stops@.subrange(0, i as int).drop_last() =~= stops@.subrange(0, i - 1));
    }
    assert(stops@.subrange(0, stops.len() as int) =~= stops@);
    out.append("</linearGradient></defs>");
    gradient_id
}

} // verus!
