use vstd::prelude::*;

verus! {

/// The hop between analysis windows: half the FFT size, widened when the
/// sample total is known so that at most about `max_target_frames` windows result.
pub open spec fn hop_size_of(
    fft_size: nat,
    total_samples: Option<usize>,
    max_target_frames: Option<usize>,
) -> nat {
    let half = fft_size / 2;
    match (total_samples, max_target_frames) {
        (Some(total), Some(target)) => {
            let dynamic = total as nat / (if target == 0 {
                1nat
            } else {
                target as nat
            });
            if dynamic > half {
                dynamic
            } else {
                half
            }
        },
        _ => half,
    }
}

/// Computes the analysis hop size.
pub fn hop_size(fft_size: usize, total_samples: Option<usize>, max_target_frames: Option<usize>) -> (hop: usize)
    ensures
        hop == hop_size_of(fft_size as nat, total_samples, max_target_frames),
{
    let mut hop = fft_size / 2;
    if let (Some(total), Some(target)) = (total_samples, max_target_frames) {
        let divisor = if target == 0 { 1 } else { target };
        let dynamic_hop = total / divisor;
        if dynamic_hop > hop {
            hop = dynamic_hop;
        }
    }
    hop
}

/// With a known sample total and a target frame count, the hop is the larger
/// of half the FFT size and the sample total divided by the target (a target of
/// zero counting as one): it is at least each of them and equal to one of them.
/// Without both, the hop is half the FFT size.
pub proof fn lemma_hop_is_max_of_half_and_share(
    fft_size: nat,
    total_samples: Option<usize>,
    max_target_frames: Option<usize>,
)
    ensures
        hop_size_of(fft_size, total_samples, max_target_frames) >= fft_size / 2,
        (total_samples, max_target_frames) matches (Some(t), Some(g)) ==> {
            let share = t as nat / (if g >= 1 { g as nat } else { 1nat });
            &&& hop_size_of(fft_size, total_samples, max_target_frames) >= share
            &&& (hop_size_of(fft_size, total_samples, max_target_frames) == share
                || hop_size_of(fft_size, total_samples, max_target_frames) == fft_size / 2)
        },
        !(total_samples is Some && max_target_frames is Some) ==> hop_size_of(
            fft_size,
            total_samples,
            max_target_frames,
        ) == fft_size / 2,
{
}

/// Number of windows of `fft` samples, `step` apart from sample 0, that fit in `fed` samples.
pub open spec fn window_count(fed: nat, fft: nat, step: nat) -> nat {
    if fed >= fft {
        ((fed - fft) as nat / step + 1) as nat
    } else {
        0
    }
}

/// Placement of analysis windows over a stream of samples that arrives in
/// pieces. It tracks the buffered (pending) samples by count only: the caller
/// holds the samples, analyzes each window this schedule hands out, and drops
/// the buffer's front when told to. Windows start every `step` samples from the
/// first sample of the stream, whatever the pieces were.
pub struct WindowSchedule {
    fft_size: usize,
    step: usize,
    pending_len: usize,
    pending_start: usize,
    frame_count: usize,
    fed: Ghost<nat>,
    dropped: Ghost<nat>,
}

impl WindowSchedule {
    /// Samples per window.
    pub closed spec fn fft(&self) -> nat {
        self.fft_size as nat
    }

    /// Samples between the starts of consecutive windows.
    pub closed spec fn step(&self) -> nat {
        self.step as nat
    }

    /// Samples currently buffered.
    pub closed spec fn pending(&self) -> nat {
        self.pending_len as nat
    }

    /// Offset, within the buffer, of the next window.
    pub closed spec fn cursor(&self) -> nat {
        self.pending_start as nat
    }

    /// Windows handed out so far.
    pub closed spec fn frames(&self) -> nat {
        self.frame_count as nat
    }

    /// Samples received so far over the whole stream.
    pub closed spec fn fed(&self) -> nat {
        self.fed@
    }

    /// Samples dropped from the buffer's front so far.
    pub closed spec fn dropped(&self) -> nat {
        self.dropped@
    }

    /// Internal consistency: the buffer holds exactly the samples not yet
    /// dropped, the next window starts `frames * step` samples into the stream,
    /// and every window handed out lay within the samples received.
    pub closed spec fn wf(&self) -> bool {
        &&& self.fft_size >= 1
        &&& self.step >= 1
        &&& self.fft_size as nat * 8 <= usize::MAX
        &&& self.dropped@ + self.pending_len == self.fed@
        &&& self.dropped@ + self.pending_start == self.frame_count as nat * self.step as nat
        &&& self.frame_count > 0 ==> (self.frame_count - 1) as nat * self.step as nat
            + self.fft_size <= self.fed@
    }

    /// Whether no further window fits in what has been received.
    pub open spec fn drained(&self) -> bool {
        self.frames() * self.step() + self.fft() > self.fed()
    }

    /// A schedule for windows of `fft_size` samples every `max(hop, 1)` samples.
    pub fn new(fft_size: usize, hop: usize) -> (s: WindowSchedule)
        requires
            fft_size >= 1,
            fft_size as nat * 8 <= usize::MAX,
        ensures
            s.wf(),
            s.fft() == fft_size,
            s.step() == if hop == 0 { 1 } else { hop as nat },
            s.pending() == 0,
            s.cursor() == 0,
            s.frames() == 0,
            s.fed() == 0,
            s.dropped() == 0,
    {
        WindowSchedule {
            fft_size,
            step: if hop == 0 { 1 } else { hop },
            pending_len: 0,
            pending_start: 0,
            frame_count: 0,
            fed: Ghost(0),
            dropped: Ghost(0),
        }
    }

    /// Windows handed out so far.
    pub fn frame_count(&self) -> (n: usize)
        ensures
            n == self.frames(),
    {
        self.frame_count
    }

    /// Offset, within the buffer, of the next window.
    pub fn cursor_offset(&self) -> (c: usize)
        ensures
            c == self.cursor(),
    {
        self.pending_start
    }

    /// Records `n` more samples appended to the buffer.
    pub fn push(&mut self, n: usize)
        requires
            old(self).wf(),
            old(self).pending() + n <= usize::MAX,
        ensures
            final(self).wf(),
            final(self).pending() == old(self).pending() + n,
            final(self).fed() == old(self).fed() + n,
            final(self).cursor() == old(self).cursor(),
            final(self).frames() == old(self).frames(),
            final(self).dropped() == old(self).dropped(),
            final(self).fft() == old(self).fft(),
            final(self).step() == old(self).step(),
    {
        self.pending_len = self.pending_len + n;
        self.fed = Ghost((self.fed@ + n) as nat);
    }

    /// Hands out the next window, as an offset into the buffer, when a full
    /// window is buffered past the cursor; the cursor then moves on by one step.
    pub fn next_window(&mut self) -> (start: Option<usize>)
        requires
            old(self).wf(),
            old(self).frames() < usize::MAX,
            old(self).pending() + old(self).step() <= usize::MAX,
        ensures
            final(self).wf(),
            final(self).fft() == old(self).fft(),
            final(self).step() == old(self).step(),
            final(self).fed() == old(self).fed(),
            final(self).dropped() == old(self).dropped(),
            final(self).pending() == old(self).pending(),
            match start {
                Some(s) => {
                    &&& s == old(self).cursor()
                    &&& s + old(self).fft() <= old(self).pending()
                    &&& old(self).dropped() + s == old(self).frames() * old(self).step()
                    &&& final(self).frames() == old(self).frames() + 1
                    &&& final(self).cursor() == old(self).cursor() + old(self).step()
                },
                None => {
                    &&& old(self).drained()
                    &&& final(self).frames() == old(self).frames()
                    &&& final(self).cursor() == old(self).cursor()
                },
            },
    {
        let available = if self.pending_len > self.pending_start {
            self.pending_len - self.pending_start
        } else {
            0
        };
        if available >= self.fft_size {
            let start = self.pending_start;
            self.pending_start = self.pending_start + self.step;
            proof {
                assert((self.frame_count + 1) as nat * self.step as nat == self.frame_count as nat
                    * self.step as nat + self.step) by (nonlinear_arith);
            }
            self.frame_count = self.frame_count + 1;
            Some(start)
        } else {
            proof {
                assert((self.frame_count as nat) * (self.step as nat) + self.fft_size > self.fed@);
            }
            None
        }
    }

    /// Whether dropping the buffer's consumed front now would reach past its end.
    pub fn compaction_overruns(&self) -> (r: bool)
        requires
            self.wf(),
        ensures
            r == (self.cursor() > self.fft() * 8 && self.cursor() > self.pending()),
    {
        self.pending_start > self.fft_size * 8 && self.pending_start > self.pending_len
    }

    /// Once the cursor is more than eight windows into the buffer, drops the
    /// consumed front: returns how many samples the caller must remove from its
    /// buffer's front (zero when nothing is dropped).
    pub fn compact(&mut self) -> (drop: usize)
        requires
            old(self).wf(),
            !(old(self).cursor() > old(self).fft() * 8 && old(self).cursor() > old(self).pending()),
        ensures
            final(self).wf(),
            final(self).fft() == old(self).fft(),
            final(self).step() == old(self).step(),
            final(self).fed() == old(self).fed(),
            final(self).frames() == old(self).frames(),
            if old(self).cursor() > old(self).fft() * 8 {
                &&& drop == old(self).cursor()
                &&& final(self).cursor() == 0
                &&& final(self).pending() == old(self).pending() - drop
                &&& final(self).dropped() == old(self).dropped() + drop
            } else {
                &&& drop == 0
                &&& final(self).cursor() == old(self).cursor()
                &&& final(self).pending() == old(self).pending()
                &&& final(self).dropped() == old(self).dropped()
            },
    {
        let threshold = self.fft_size * 8;
        if self.pending_start > threshold {
            let drop = self.pending_start;
            self.pending_len = self.pending_len - drop;
            self.pending_start = 0;
            self.dropped = Ghost((self.dropped@ + drop) as nat);
            drop
        } else {
            0
        }
    }

    /// When no window was handed out yet but samples are buffered: how many
    /// buffered samples, at most one window's worth from the cursor, go into the
    /// single zero-padded window that stands for the whole short stream.
    pub fn tail_window(&self) -> (copy_len: Option<usize>)
        requires
            self.wf(),
        ensures
            copy_len is Some <==> (self.frames() == 0 && self.pending() > 0),
            copy_len matches Some(n) ==> n == if self.pending() >= self.cursor() + self.fft() {
                self.fft()
            } else if self.pending() > self.cursor() {
                (self.pending() - self.cursor()) as nat
            } else {
                0
            },
    {
        if self.frame_count == 0 && self.pending_len > 0 {
            let available = if self.pending_len > self.pending_start {
                self.pending_len - self.pending_start
            } else {
                0
            };
            Some(if available < self.fft_size { available } else { self.fft_size })
        } else {
            None
        }
    }
}

/// Streaming and batch analysis place the same windows: once no further window
/// fits, the windows handed out are exactly those that fit in the samples
/// received, counted from the first sample, whichever pieces the samples came in.
pub proof fn lemma_drained_windows_match_batch(s: WindowSchedule)
    requires
        s.wf(),
        s.drained(),
    ensures
        s.frames() == window_count(s.fed(), s.fft(), s.step()),
{
    let n = s.frames();
    let step = s.step();
    let fft = s.fft();
    let fed = s.fed();
    assert(n * step + fft > fed);
    if n == 0 {
        assert(n * step == 0) by (nonlinear_arith)
            requires
                n == 0,
        ;
        assert(fed < fft);
    } else {
        assert((n - 1) as nat * step + fft <= fed);
        let q = ((fed - fft) as nat) / step;
        assert(q == n - 1) by (nonlinear_arith)
            requires
                q == ((fed - fft) as nat) / step,
                step >= 1,
                (n - 1) as nat * step + fft <= fed,
                n * step + fft > fed,
                n >= 1,
        ;
    }
}

} // verus!
