//! The volume controller's one decision: raise a device to the target
//! level when, and only when, it reads strictly below it.

use crate::level::Level;
use vstd::prelude::*;

verus! {

/// The level to write to a device that reads `current`: the target where
/// the reading is strictly below it, and nothing otherwise.
pub open spec fn correction(current: Level, target: Level) -> Option<Level> {
    if current@ < target@ {
        Some(target)
    } else {
        None
    }
}

/// The level of a device that read `current` once its correction, if one
/// was due, has been written.
pub open spec fn level_after(current: Level, target: Level) -> Level {
    match correction(current, target) {
        Some(written) => written,
        None => current,
    }
}

/// The level of a device after `rounds` corrections in a row, with nothing
/// else changing the device in between.
pub open spec fn level_after_rounds(current: Level, target: Level, rounds: nat) -> Level
    decreases rounds,
{
    if rounds == 0 {
        current
    } else {
        level_after(level_after_rounds(current, target, (rounds - 1) as nat), target)
    }
}

/// Decides the correction of a device that reads `current`: `Some(target)`
/// is the level to write, `None` means that the device is left alone.
pub fn correct_if_below_target(current: Level, target: Level) -> (write: Option<Level>)
    ensures
        write == correction(current, target),
{
    if current.is_below(target) {
        Some(target)
    } else {
        None
    }
}

/// A device at or above the target is never written to, and keeps its
/// level.
pub proof fn lemma_no_write_at_or_above_target(current: Level, target: Level)
    requires
        current@ >= target@,
    ensures
        correction(current, target) is None,
        level_after(current, target) == current,
{
}

/// A device below the target is set to exactly the target, and the
/// correction that follows at once writes nothing.
pub proof fn lemma_one_write_reaches_target(current: Level, target: Level)
    requires
        current@ < target@,
    ensures
        correction(current, target) == Some(target),
        level_after(current, target) == target,
        correction(level_after(current, target), target) is None,
{
}

/// Correcting a device that was just corrected changes nothing.
pub proof fn lemma_correction_is_idempotent(current: Level, target: Level)
    ensures
        correction(level_after(current, target), target) is None,
        level_after(level_after(current, target), target) == level_after(current, target),
{
}

/// Any number of corrections in a row leaves the device where the first
/// one left it.
pub proof fn lemma_rounds_settle_after_first(current: Level, target: Level, rounds: nat)
    requires
        rounds >= 1,
    ensures
        level_after_rounds(current, target, rounds) == level_after(current, target),
    decreases rounds,
{
    if rounds > 1 {
        lemma_rounds_settle_after_first(current, target, (rounds - 1) as nat);
        lemma_correction_is_idempotent(current, target);
    } else {
        assert(level_after_rounds(current, target, 0) == current);
    }
}

} // verus!
