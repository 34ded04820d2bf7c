use vstd::prelude::*;

use crate::options::Theme;

verus! {

/// The three band colors of a theme, low band first.
pub open spec fn theme_palette(theme: Theme) -> Seq<[u8; 3]> {
    match theme {
        Theme::Classic => seq![[255u8, 0u8, 0u8], [0u8, 255u8, 0u8], [0u8, 0u8, 255u8]],
        Theme::Cool => seq![[220u8, 20u8, 180u8], [240u8, 120u8, 0u8], [0u8, 160u8, 240u8]],
        Theme::Light => seq![[240u8, 128u8, 128u8], [144u8, 238u8, 144u8], [173u8, 216u8, 230u8]],
    }
}

/// Red, green and blue for the first three bands; black beyond.
pub open spec fn primary_color(i: int) -> [u8; 3] {
    if i == 0 {
        [255u8, 0u8, 0u8]
    } else if i == 1 {
        [0u8, 255u8, 0u8]
    } else if i == 2 {
        [0u8, 0u8, 255u8]
    } else {
        [0u8, 0u8, 0u8]
    }
}

/// The palette a band color list starts from: the custom colors when given,
/// else the theme's three colors.
pub open spec fn base_palette(theme: Theme, custom: Option<Vec<[u8; 3]>>) -> Seq<[u8; 3]> {
    match custom {
        Some(c) => c@,
        None => theme_palette(theme),
    }
}

/// One color per band: the base palette's colors as far as they go; past them,
/// the primaries for at most three bands, and the hue wheel's color of that
/// band for more.
pub open spec fn band_palette(
    channel_count: nat,
    theme: Theme,
    custom: Option<Vec<[u8; 3]>>,
    hue_wheel: Seq<[u8; 3]>,
) -> Seq<[u8; 3]> {
    let base = base_palette(theme, custom);
    Seq::new(
        channel_count,
        |i: int|
            if i < base.len() {
                base[i]
            } else if channel_count <= 3 {
                primary_color(i)
            } else {
                hue_wheel[i]
            },
    )
}

/// There is exactly one color per band; the custom colors, or else the
/// theme's three, come first and in order, and only the bands past them get
/// filler colors.
pub proof fn lemma_band_palette_shape(
    channel_count: nat,
    theme: Theme,
    custom: Option<Vec<[u8; 3]>>,
    hue_wheel: Seq<[u8; 3]>,
)
    ensures
        band_palette(channel_count, theme, custom, hue_wheel).len() == channel_count,
        forall|i: int|
            0 <= i < channel_count && i < base_palette(theme, custom).len() ==> #[trigger] band_palette(
                channel_count,
                theme,
                custom,
                hue_wheel,
            )[i] == base_palette(theme, custom)[i],
        custom is None ==> base_palette(theme, custom).len() == 3,
        custom matches Some(c) ==> base_palette(theme, custom) == c@,
        theme == Theme::Classic && custom is None && channel_count >= 3 ==> band_palette(
            channel_count,
            theme,
            custom,
            hue_wheel,
        ).subrange(0, 3) == seq![[255u8, 0u8, 0u8], [0u8, 255u8, 0u8], [0u8, 0u8, 255u8]],
{
    if theme == Theme::Classic && custom is None && channel_count >= 3 {
        assert(band_palette(channel_count, theme, custom, hue_wheel).subrange(0, 3) =~= seq![
            [255u8, 0u8, 0u8],
            [0u8, 255u8, 0u8],
            [0u8, 0u8, 255u8],
        ]);
    }
}

fn theme_colors(theme: Theme) -> (v: Vec<[u8; 3]>)
    ensures
        v@ == theme_palette(theme),
{
    let mut v: Vec<[u8; 3]> = Vec::new();
    match theme {
        Theme::Classic => {
            v.push([255, 0, 0]);
            v.push([0, 255, 0]);
            v.push([0, 0, 255]);
        },
        Theme::Cool => {
            v.push([220, 20, 180]);
            v.push([240, 120, 0]);
            v.push([0, 160, 240]);
        },
        Theme::Light => {
            v.push([240, 128, 128]);
            v.push([144, 238, 144]);
            v.push([173, 216, 230]);
        },
    }
    assert(v@ =~= theme_palette(theme));
    v
}

fn copy_colors(c: &Vec<[u8; 3]>) -> (v: Vec<[u8; 3]>)
    ensures
        v@ == c@,
{
    let mut v: Vec<[u8; 3]> = Vec::new();
    let mut i: usize = 0;
    while i < c.len()
        invariant
            i <= c.len(),
            v@ == c@.subrange(0, i as int),
        decreases c.len() - i,
    {
        v.push(c[i]);
        i = i + 1;
        assert(v@ =~= c@.subrange(0, i as int));
    }
    assert(v@ =~= c@);
    v
}

/// The color of each of `channel_count` bands: custom colors or the theme's,
/// completed as [`band_palette`] says and cut to `channel_count`. `hue_wheel[i]`
/// is the fully saturated hue color of band `i`, needed only for more than three bands.
pub fn resolve_band_colors(
    channel_count: usize,
    theme: Theme,
    custom: &Option<Vec<[u8; 3]>>,
    hue_wheel: &Vec<[u8; 3]>,
) -> (colors: Vec<[u8; 3]>)
    requires
        channel_count > 3 ==> hue_wheel@.len() >= channel_count,
    ensures
        colors@ == band_palette(channel_count as nat, theme, *custom, hue_wheel@),
{
    let ghost base = base_palette(theme, *custom);
    let mut colors: Vec<[u8; 3]> = match custom {
        Some(c) => copy_colors(c),
        None => theme_colors(theme),
    };
    assert(colors@ =~= base);
    while colors.len() < channel_count
        invariant
            channel_count > 3 ==> hue_wheel@.len() >= channel_count,
            colors@.len() >= base.len(),
            colors@.len() <= channel_count || colors@.len() == base.len(),
            forall|k: int| 0 <= k < base.len() ==> colors@[k] == base[k],
            forall|k: int|
                base.len() <= k < colors@.len() ==> colors@[k] == if channel_count <= 3 {
                    primary_color(k)
                } else {
                    hue_wheel@[k]
                },
        decreases channel_count - colors.len(),
    {
        let i = colors.len();
        let color = if channel_count <= 3 {
            if i == 0 {
                [255, 0, 0]
            } else if i == 1 {
                [0, 255, 0]
            } else if i == 2 {
                [0, 0, 255]
            } else {
                [0, 0, 0]
            }
        } else {
            hue_wheel[i]
        };
        colors.push(color);
    }
    colors.truncate(channel_count);
    assert(colors@ =~= band_palette(channel_count as nat, theme, *custom, hue_wheel@));
    colors
}

/// Colors laid out as `R G B R G B …`.
pub open spec fn flatten_rgb(colors: Seq<[u8; 3]>) -> Seq<u8> {
    Seq::new(colors.len() * 3, |i: int| colors[i / 3][i % 3])
}

/// The raw bytes hold three bytes per color: byte `3 * i + k` is channel `k`
/// (red, green, blue) of color `i`, and nothing else.
pub proof fn lemma_raw_bytes_layout(colors: Seq<[u8; 3]>)
    ensures
        flatten_rgb(colors).len() == 3 * colors.len(),
        forall|i: int, k: int|
            0 <= i < colors.len() && 0 <= k < 3 ==> #[trigger] flatten_rgb(colors)[3 * i + k]
                == colors[i][k],
{
    assert forall|i: int, k: int| 0 <= i < colors.len() && 0 <= k < 3 implies #[trigger] flatten_rgb(
        colors,
    )[3 * i + k] == colors[i][k] by {
        assert((3 * i + k) / 3 == i && (3 * i + k) % 3 == k) by (nonlinear_arith)
            requires
                0 <= k < 3,
        ;
        assert(3 * i + k < colors.len() * 3) by (nonlinear_arith)
            requires
                0 <= i < colors.len(),
                0 <= k < 3,
        ;
    }
}

/// The legacy raw moodbar bytes: each color's red, green and blue in turn.
pub fn analysis_to_raw_rgb_bytes(colors: &Vec<[u8; 3]>) -> (out: Vec<u8>)
    ensures
        out@ == flatten_rgb(colors@),
{
    let mut out: Vec<u8> = Vec::new();
    let mut i: usize = 0;
    while i < colors.len()
        invariant
            i <= colors.len(),
            out@ == flatten_rgb(colors@.subrange(0, i as int)),
        decreases colors.len() - i,
    {
        let c = colors[i];
        out.push(c[0]);
        out.push(c[1]);
        out.push(c[2]);
        i = i + 1;
        assert(out@ =~= flatten_rgb(colors@.subrange(0, i as int)));
    }
    assert(colors@.subrange(0, colors.len() as int) =~= colors@);
    out
}

} // verus!
