//! Handing buffered samples to the audio device callback.

use vstd::prelude::*;

verus! {

/// How many buffered samples a callback that wants `needed` of them gets.
pub open spec fn samples_taken(buffered: nat, needed: nat) -> nat {
    if buffered >= needed {
        needed
    } else {
        buffered
    }
}

/// Fills the device buffer `out` from the front of `buf`: as many buffered
/// samples as fit go first, in order, and leave `buf`; if there were too few
/// (an underrun), the rest of `out` is `silence`. Returns how many samples
/// were taken, which the caller then scales by the playback gain.
pub fn play_out<T: Copy>(buf: &mut Vec<T>, out: &mut [T], silence: T) -> (taken: usize)
    ensures
        taken == samples_taken(old(buf)@.len(), old(out)@.len()),
        final(out)@.len() == old(out)@.len(),
        forall|i: int|
            0 <= i < old(out)@.len() ==> #[trigger] final(out)@[i] == if i < taken {
                old(buf)@[i]
            } else {
                silence
            },
        final(buf)@ == old(buf)@.subrange(taken as int, old(buf)@.len() as int),
{
    let needed = out.len();
    let taken = if buf.len() >= needed {
        needed
    } else {
        buf.len()
    };
    let ghost out0 = out@;
    let mut i: usize = 0;
    while i < needed
        invariant
            needed == out@.len(),
            needed == out0.len(),
            taken <= needed,
            taken <= buf@.len(),
            i <= needed,
            forall|j: int|
                0 <= j < i ==> #[trigger] out@[j] == if j < taken {
                    buf@[j]
                } else {
                    silence
                },
        decreases needed - i,
    {
        if i < taken {
            out[i] = buf[i];
        } else {
            out[i] = silence;
        }
        i = i + 1;
    }
    let rest = buf.split_off(taken);
    *buf = rest;
    taken
}

} // verus!
