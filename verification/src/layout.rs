//! How the plugin sizes itself for a host: how many voices a bus layout
//! gets, and how long each voice's delay line is.

use vstd::prelude::*;
use crate::delay_line::{DelayLineView, INTERP_MARGIN, lemma_taps_read_consecutive_ages};

verus! {

/// Voices made when the host names no main output bus.
pub const DEFAULT_CHANNELS: usize = 2;

/// One voice per main output channel; a layout without a main output gets
/// the stereo default.
pub fn output_channel_count(main_output_channels: Option<u32>) -> (n: usize)
    ensures
        n == (match main_output_channels {
            Some(c) => c as nat,
            None => DEFAULT_CHANNELS as nat,
        }),
{
    match main_output_channels {
        Some(c) => c as usize,
        None => DEFAULT_CHANNELS,
    }
}

/// Length of a voice's delay line, given the longest modulated delay in
/// whole samples (rounded up): that many slots plus the interpolator's margin.
pub fn delay_buffer_len(max_delay_samples: usize) -> (len: usize)
    requires
        max_delay_samples + INTERP_MARGIN <= usize::MAX,
    ensures
        len == max_delay_samples + INTERP_MARGIN,
{
    max_delay_samples + INTERP_MARGIN
}

/// Law: a delay line sized by `delay_buffer_len(max_delay)` serves every
/// whole-sample delay `age` from 2 up to `max_delay`: the four interpolation
/// taps read the samples `age + 1`, `age`, `age - 1` and `age - 2` frames
/// old, and none of them crosses the write head.
pub proof fn lemma_sized_line_taps_stay_behind_head<T>(
    v: DelayLineView<T>,
    max_delay: nat,
    index_a: int,
    age: int,
)
    requires
        v.wf(),
        v.slots.len() == max_delay + INTERP_MARGIN,
        2 <= age <= max_delay,
        0 <= index_a < v.slots.len(),
        index_a == v.slot_of_age(age),
    ensures
        v.slots[(index_a + v.slots.len() - 1) % (v.slots.len() as int)] == v.behind(age + 1),
        v.slots[index_a] == v.behind(age),
        v.slots[(index_a + 1) % (v.slots.len() as int)] == v.behind(age - 1),
        v.slots[(index_a + 2) % (v.slots.len() as int)] == v.behind(age - 2),
        0 <= age - 2,
        age + 1 < v.slots.len(),
{
    lemma_taps_read_consecutive_ages(v, index_a, age);
}

} // verus!
