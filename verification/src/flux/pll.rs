//! Dynamic software PLL.
//!
//! The phase correction is gradual, as in a real data separator: the window
//! never snaps all the way to a transition.

use vstd::prelude::*;

verus! {

/// Nominal bit-cell duration, in nanoseconds.
pub const CLOCK_CENTRE_NS: i64 = 2_000;

/// Shortest bit cell the PLL follows the disk to, in nanoseconds.
pub const CLOCK_MIN_NS: i64 = 1_800;

/// Longest bit cell the PLL follows the disk to, in nanoseconds.
pub const CLOCK_MAX_NS: i64 = 2_200;

/// One measured delay ending in a magnetic flux transition.
#[derive(Debug, Clone, Copy, PartialEq, Eq, Structural)]
pub struct FluxEvent {
    /// Delay since the previous transition, in nanoseconds.
    pub nanoseconds: u32,
    /// Whether the index pulse occurred at this transition.
    pub index: bool,
}

/// Clock and phase of a [`PllDecoder`], as mathematical integers.
pub struct PllState {
    /// Estimated bit-cell duration.
    pub clock: int,
    /// Time since the last decoded cell boundary.
    pub pending: int,
}

/// Integer division rounding toward zero, for a positive divisor.
pub open spec fn div_toward_zero(dividend: int, divisor: int) -> int {
    if dividend >= 0 {
        dividend / divisor
    } else {
        -((-dividend) / divisor)
    }
}

/// `value` limited to the clock range.
pub open spec fn clamp_clock(value: int) -> int {
    if value < CLOCK_MIN_NS {
        CLOCK_MIN_NS as int
    } else if value > CLOCK_MAX_NS {
        CLOCK_MAX_NS as int
    } else {
        value
    }
}

/// `count` empty cells followed by the cell that holds the transition.
pub open spec fn cells_to_transition(count: nat) -> Seq<bool> {
    Seq::new(count, |i: int| false).push(true)
}

impl PllState {
    /// A PLL at the nominal clock with no phase error.
    pub open spec fn centred() -> PllState {
        PllState { clock: CLOCK_CENTRE_NS as int, pending: 0 }
    }

    /// The clock stays within ten percent of nominal and the phase within half
    /// a cell of a boundary.
    pub open spec fn wf(self) -> bool {
        &&& CLOCK_MIN_NS <= self.clock <= CLOCK_MAX_NS
        &&& -(CLOCK_MAX_NS / 2) <= self.pending <= CLOCK_MAX_NS / 2
    }

    /// Time from the last cell boundary to a transition `delay` later.
    pub open spec fn elapsed(self, delay: int) -> int {
        self.pending + delay
    }

    /// Whether the transition lies past the middle of the first cell; one that
    /// does not is folded into the next delay.
    pub open spec fn emits(self, delay: int) -> bool {
        self.elapsed(delay) >= self.clock / 2
    }

    /// Empty cells before the cell the transition falls in, cells being
    /// centred on multiples of the clock.
    pub open spec fn zeros(self, delay: int) -> int {
        (self.elapsed(delay) - self.clock / 2) / self.clock
    }

    /// Distance of the transition from the centre of its cell.
    pub open spec fn phase_error(self, delay: int) -> int {
        self.elapsed(delay) - (self.zeros(delay) + 1) * self.clock
    }

    /// Clock after the transition: pulled by a tenth of the error per cell for
    /// legal MFM gaps, and back toward nominal otherwise.
    pub open spec fn next_clock(self, delay: int) -> int {
        let zeros = self.zeros(delay);
        if 1 <= zeros <= 3 {
            clamp_clock(
                self.clock + div_toward_zero(
                    div_toward_zero(self.phase_error(delay), zeros + 1),
                    10,
                ),
            )
        } else {
            clamp_clock(self.clock + div_toward_zero(CLOCK_CENTRE_NS - self.clock, 10))
        }
    }

    /// State after a transition `delay` after the previous one.
    pub open spec fn after(self, delay: int) -> PllState {
        if self.emits(delay) {
            PllState {
                clock: self.next_clock(delay),
                pending: div_toward_zero(self.phase_error(delay), 2),
            }
        } else {
            PllState { clock: self.clock, pending: self.elapsed(delay) }
        }
    }

    /// Cells decoded for a transition `delay` after the previous one.
    pub open spec fn cells(self, delay: int) -> Seq<bool> {
        if self.emits(delay) {
            cells_to_transition(self.zeros(delay) as nat)
        } else {
            Seq::empty()
        }
    }
}

/// Stateful dynamic PLL converting flux delays to MFM bit cells.
#[derive(Debug)]
pub struct PllDecoder {
    clock_ns: i64,
    pending_ns: i64,
}

impl View for PllDecoder {
    type V = PllState;

    closed spec fn view(&self) -> PllState {
        PllState { clock: self.clock_ns as int, pending: self.pending_ns as int }
    }
}

/// A transition that emits lies within half a cell of the centre of its cell.
pub proof fn lemma_phase_error_bounded(state: PllState, delay: int)
    requires
        state.wf(),
        state.emits(delay),
    ensures
        state.zeros(delay) >= 0,
        -(CLOCK_MAX_NS / 2) <= state.phase_error(delay) <= CLOCK_MAX_NS / 2,
{
    let clock = state.clock;
    let over = state.elapsed(delay) - clock / 2;
    vstd::arithmetic::div_mod::lemma_fundamental_div_mod(over, clock);
    vstd::arithmetic::div_mod::lemma_div_pos_is_pos(over, clock);
    assert((over / clock + 1) * clock == clock * (over / clock) + clock) by (nonlinear_arith);
}

impl PllDecoder {
    #[verifier::type_invariant]
    spec fn in_range(self) -> bool {
        self@.wf()
    }

    /// Creates a PLL centred on the Amiga DD 2 μs bit cell.
    pub fn new() -> (decoder: Self)
        ensures
            decoder@ == PllState::centred(),
            decoder@.wf(),
    {
        PllDecoder { clock_ns: CLOCK_CENTRE_NS, pending_ns: 0 }
    }

    /// Resets clock and phase state.
    pub fn reset(&mut self)
        ensures
            final(self)@ == PllState::centred(),
    {
        *self = PllDecoder::new();
    }

    /// Submits a transition delay and appends decoded cells to `output`.
    ///
    /// The transition itself is represented by a final `true` cell, preceded
    /// by the decoded number of zero cells.
    pub fn submit(&mut self, nanoseconds: u32, output: &mut Vec<bool>)
        ensures
            old(self)@.wf(),
            final(self)@.wf(),
            final(self)@ == old(self)@.after(nanoseconds as int),
            final(output)@ == old(output)@ + old(self)@.cells(nanoseconds as int),
    {
        proof {
            use_type_invariant(&*self);
        }
        let ghost before = self@;
        let ghost start = output@;
        let clock = self.clock_ns;
        let elapsed = self.pending_ns + nanoseconds as i64;
        if elapsed < clock / 2 {
            *self = PllDecoder { clock_ns: clock, pending_ns: elapsed };
            assert(output@ == start + before.cells(nanoseconds as int));
            return ;
        }
        proof {
            lemma_phase_error_bounded(before, nanoseconds as int);
        }
        let zeros: i64 = (elapsed - clock / 2) / clock;
        assert(zeros == before.zeros(nanoseconds as int));
        assert(zeros <= 2_400_000) by {
            vstd::arithmetic::div_mod::lemma_div_is_ordered(
                elapsed - clock / 2,
                4_300_000_000,
                clock as int,
            );
            assert(4_300_000_000int / (clock as int) <= 2_400_000) by (nonlinear_arith)
                requires
                    clock >= 1_800,
            ;
        }
        assert((zeros + 1) * clock <= 5_300_000_000) by (nonlinear_arith)
            requires
                0 <= zeros <= 2_400_000,
                0 <= clock <= 2_200,
        ;
        assert(0 <= (zeros + 1) * clock) by (nonlinear_arith)
            requires
                0 <= zeros,
                0 <= clock,
        ;
        let error: i64 = elapsed - (zeros + 1) * clock;
        let pulled: i64 = if 1 <= zeros && zeros <= 3 {
            clock + (error / (zeros + 1)) / 10
        } else {
            clock + (CLOCK_CENTRE_NS - clock) / 10
        };
        let next_clock: i64 = if pulled < CLOCK_MIN_NS {
            CLOCK_MIN_NS
        } else if pulled > CLOCK_MAX_NS {
            CLOCK_MAX_NS
        } else {
            pulled
        };
        // Only half the phase mismatch is carried over, matching the inertia
        // of a real separator.
        *self = PllDecoder { clock_ns: next_clock, pending_ns: error / 2 };
        let mut pushed: i64 = 0;
        while pushed < zeros
            invariant
                0 <= pushed <= zeros,
                output@ == start + Seq::new(pushed as nat, |i: int| false),
            decreases zeros - pushed,
        {
            output.push(false);
            pushed += 1;
            assert(output@ == start + Seq::new(pushed as nat, |i: int| false));
        }
        output.push(true);
        assert(output@ == start + before.cells(nanoseconds as int));
    }

    /// Returns the current estimated bit-cell duration.
    pub fn clock_nanoseconds(&self) -> (clock: i64)
        ensures
            clock == self@.clock,
            CLOCK_MIN_NS <= clock <= CLOCK_MAX_NS,
    {
        proof {
            use_type_invariant(self);
        }
        self.clock_ns
    }
}

impl Clone for PllDecoder {
    fn clone(&self) -> (copy: Self)
        ensures
            copy@ == self@,
    {
        proof {
            use_type_invariant(self);
        }
        PllDecoder { clock_ns: self.clock_ns, pending_ns: self.pending_ns }
    }
}

impl Default for PllDecoder {
    fn default() -> (decoder: Self)
        ensures
            decoder@ == PllState::centred(),
    {
        PllDecoder::new()
    }
}

} // verus!
