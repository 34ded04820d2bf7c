use vstd::prelude::*;

use crate::text::str_literal_to_string;
use crate::types::MoodbarError;

verus! {

/// Visual theme presets.
#[derive(Debug, Clone, Copy, PartialEq, Eq, Structural)]
pub enum Theme {
    Classic,
    Cool,
    Light,
}

impl Default for Theme {
    fn default() -> (t: Theme)
        ensures
            t == Theme::Classic,
    {
        Theme::Classic
    }
}

/// Band normalization strategy.
#[derive(Debug, Clone, Copy, PartialEq, Eq, Structural)]
pub enum NormalizeMode {
    PerChannelPeak,
    GlobalPeak,
}

/// Signal extraction strategy per FFT bin.
#[derive(Debug, Clone, Copy, PartialEq, Eq, Structural)]
pub enum DetectionMode {
    SpectralEnergy,
    SpectralFlux,
}

/// Whether `n` is a power of two (one included).
pub open spec fn is_power_of_two(n: nat) -> bool
    decreases n,
{
    if n == 1 {
        true
    } else if n == 0 || n % 2 == 1 {
        false
    } else {
        is_power_of_two(n / 2)
    }
}

/// Two multiplied by itself `k` times.
pub open spec fn two_to(k: nat) -> nat
    decreases k,
{
    if k == 0 {
        1
    } else {
        2 * two_to((k - 1) as nat)
    }
}

proof fn lemma_two_to_is_power_of_two(k: nat)
    ensures
        is_power_of_two(two_to(k)),
        two_to(k) >= 1,
    decreases k,
{
    if k > 0 {
        lemma_two_to_is_power_of_two((k - 1) as nat);
        let h = two_to((k - 1) as nat);
        assert((2 * h) / 2 == h && (2 * h) % 2 == 0);
    }
}

proof fn lemma_power_of_two_is_two_to(n: nat)
    requires
        is_power_of_two(n),
    ensures
        exists|k: nat| #[trigger] two_to(k) == n,
    decreases n,
{
    if n == 1 {
        assert(two_to(0) == 1);
    } else {
        lemma_power_of_two_is_two_to(n / 2);
        let k = choose|k: nat| #[trigger] two_to(k) == n / 2;
        assert(two_to(k + 1) == 2 * two_to(k));
        assert(two_to(k + 1) == n);
    }
}

/// The powers of two are exactly the numbers `2 * 2 * ... * 2` (one included):
/// `n` passes the power-of-two test exactly when `n == 2^k` for some `k`.
pub proof fn lemma_power_of_two_means_two_to_k(n: nat)
    ensures
        is_power_of_two(n) <==> exists|k: nat| #[trigger] two_to(k) == n,
{
    if is_power_of_two(n) {
        lemma_power_of_two_is_two_to(n);
    }
    if exists|k: nat| #[trigger] two_to(k) == n {
        let k = choose|k: nat| #[trigger] two_to(k) == n;
        lemma_two_to_is_power_of_two(k);
    }
}

/// The FFT sizes accepted are exactly the powers of two from 64 up: `2^k`
/// with `k >= 6`. So 1536 = 3 * 512 is refused, while 64, 128, ..., 2048 pass.
pub proof fn lemma_accepted_fft_sizes(n: nat)
    ensures
        (is_power_of_two(n) && n >= 64) <==> exists|k: nat| k >= 6 && #[trigger] two_to(k) == n,
{
    lemma_power_of_two_means_two_to_k(n);
    assert(two_to(6) == 64) by {
        reveal_with_fuel(two_to, 7);
    }
    if is_power_of_two(n) && n >= 64 {
        let k = choose|k: nat| #[trigger] two_to(k) == n;
        if k < 6 {
            lemma_two_to_monotone(k, 6);
            assert(false);
        }
    }
    if exists|k: nat| k >= 6 && #[trigger] two_to(k) == n {
        let k = choose|k: nat| k >= 6 && #[trigger] two_to(k) == n;
        lemma_two_to_monotone(6, k);
    }
}

proof fn lemma_two_to_monotone(a: nat, b: nat)
    requires
        a <= b,
    ensures
        two_to(a) <= two_to(b),
        a < b ==> two_to(a) < two_to(b),
    decreases b - a,
{
    if a < b {
        lemma_two_to_monotone(a, (b - 1) as nat);
        lemma_two_to_is_power_of_two((b - 1) as nat);
    }
}

fn power_of_two_exec(n: usize) -> (r: bool)
    ensures
        r == is_power_of_two(n as nat),
{
    let mut m = n;
    while m != 1 && m != 0 && m % 2 == 0
        invariant
            is_power_of_two(n as nat) == is_power_of_two(m as nat),
        decreases m,
    {
        m = m / 2;
    }
    m == 1
}

/// The refusal of an FFT size.
pub open spec fn fft_size_refusal_text() -> Seq<char> {
    "fft_size must be a power of two and >= 64"@
}

/// The FFT size must be a power of two of at least 64.
pub fn check_fft_size(fft_size: usize) -> (r: Result<(), MoodbarError>)
    ensures
        r is Ok <==> (is_power_of_two(fft_size as nat) && fft_size >= 64),
        r is Ok <==> exists|k: nat| k >= 6 && #[trigger] two_to(k) == fft_size,
        r matches Err(e) ==> (e matches MoodbarError::InvalidOptions(m) && m@
            == fft_size_refusal_text()),
{
    proof {
        lemma_accepted_fft_sizes(fft_size as nat);
    }
    if !power_of_two_exec(fft_size) || fft_size < 64 {
        return Err(
            MoodbarError::InvalidOptions(
                str_literal_to_string("fft_size must be a power of two and >= 64"),
            ),
        );
    }
    Ok(())
}

/// The refusal of a frames-per-color count.
pub open spec fn frames_per_color_refusal_text() -> Seq<char> {
    "frames_per_color must be >= 1"@
}

/// At least one analysis frame must go into each color.
pub fn check_frames_per_color(frames_per_color: usize) -> (r: Result<(), MoodbarError>)
    ensures
        r is Ok <==> frames_per_color >= 1,
        r matches Err(e) ==> (e matches MoodbarError::InvalidOptions(m) && m@
            == frames_per_color_refusal_text()),
{
    if frames_per_color == 0 {
        return Err(
            MoodbarError::InvalidOptions(str_literal_to_string("frames_per_color must be >= 1")),
        );
    }
    Ok(())
}

} // verus!
