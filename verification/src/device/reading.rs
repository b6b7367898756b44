//! What a disk reads as, whatever interface it is in.

use vstd::prelude::*;

use crate::error::ErrorView;
use crate::flux::pll::PllState;
use crate::flux::{self, following, rotation, FluxEvent};
use crate::types::ReadMode;

verus! {

/// An index-aligned read of a disk that turns at a steady speed, within five
/// percent of nominal, gives the cells between two index pulses, and says that
/// they are aligned.
pub proof fn law_indexed_disk_is_read(
    events: Seq<FluxEvent>,
    counts: Seq<int>,
    cell: int,
    first: int,
    second: int,
    mode: ReadMode,
    high_density: bool,
)
    requires
        mode != ReadMode::Fast,
        1_900 <= cell <= 2_100,
        following::steady(events, counts, cell),
        0 <= first < second <= events.len(),
        forall|i: int|
            0 <= i < events.len() && i <= second ==> (#[trigger] events[i]).index == (i == first
                || i == second),
        64 <= following::laid_out(counts.subrange(first, second)).len() <= 237_568,
    ensures
        super::revolution_of(events, mode, high_density) == Ok::<(Seq<bool>, bool), ErrorView>(
            (following::laid_out(counts.subrange(first, second)), true),
        ),
{
    following::law_revolution_is_cut_at_index(events, counts, cell, first, second);
    let start = rotation::warm_state(events);
    let cut = rotation::revolution_events(events);
    if rotation::oversize(start, cut) is Some {
        flux::laws::lemma_oversize_is_long(start, cut);
    }
}

/// A fast read of a disk that turns at a steady speed, and comes again after one
/// revolution and not before, gives the cells of that revolution, and says that
/// they are not aligned.
pub proof fn law_fast_read_is_cut_at_its_revolution(
    events: Seq<FluxEvent>,
    counts: Seq<int>,
    cell: int,
    period: int,
    high_density: bool,
)
    requires
        1_900 <= cell <= 2_100,
        following::steady(events, counts, cell),
        ({
            let bits = following::laid_out(counts);
            let shortest = if high_density {
                160_000int
            } else {
                80_000int
            };
            &&& shortest < period <= shortest * 3 / 2
            &&& period + 11_216 <= bits.len() <= 237_568
            &&& forall|i: int|
                0 <= i && i + period < bits.len() ==> #[trigger] bits[i] == bits[i + period]
            &&& forall|shorter: int|
                shortest <= shorter < period ==> #[trigger] flux::laws::repeats(
                    bits,
                    2_000,
                    3_024,
                    shorter,
                ) < 1_024
        }),
    ensures
        super::revolution_of(events, ReadMode::Fast, high_density) == Ok::<
            (Seq<bool>, bool),
            ErrorView,
        >((following::laid_out(counts).take(period), false)),
{
    let start = PllState::centred();
    following::law_steady_speed_decodes(events, counts, cell);
    flux::laws::law_repeated_capture_is_found(following::laid_out(counts), period, high_density);
    if rotation::oversize(start, events) is Some {
        flux::laws::lemma_oversize_is_long(start, events);
    }
}

/// What has come of a read so far is what the head has passed.
pub proof fn law_arriving_cells_are_shown(events: Seq<FluxEvent>, counts: Seq<int>, cell: int)
    requires
        1_900 <= cell <= 2_100,
        following::steady(events, counts, cell),
        0 < events.len(),
        following::laid_out(counts).len() <= 237_568,
    ensures
        super::cells_so_far(events) == Some(following::laid_out(counts)),
{
    let start = PllState::centred();
    following::law_steady_speed_decodes(events, counts, cell);
    if rotation::oversize(start, events) is Some {
        flux::laws::lemma_oversize_is_long(start, events);
    }
}

/// A stream of fewer than 64 cells, or of more than the longest track, is no
/// revolution.
pub proof fn law_impossible_lengths_are_refused(events: Seq<FluxEvent>, mode: ReadMode, hd: bool)
    requires
        mode != ReadMode::Fast,
        rotation::revolution_bits(events).len() < 64 || rotation::revolution_bits(events).len()
            > 237_568,
    ensures
        super::revolution_of(events, mode, hd) is Err,
{
    if rotation::revolution_bits(events).len() > 237_568 {
        lemma_long_is_oversize(rotation::warm_state(events), rotation::revolution_events(events));
    }
}

proof fn lemma_long_is_oversize(state: PllState, events: Seq<FluxEvent>)
    requires
        rotation::decoded(state, events).len() > 237_568,
    ensures
        rotation::oversize(state, events) is Some,
    decreases events.len(),
{
    if events.len() > 0 && rotation::decoded(state, events.drop_last()).len() > 237_568 {
        lemma_long_is_oversize(state, events.drop_last());
    }
}

} // verus!
