//! Position corrections of embedded browser views: per view label, the
//! offset learned between where a view was asked to go and where the
//! window system put it.

use crate::registry::Registry;
use vstd::prelude::*;

verus! {

/// Learned offsets, keyed by view label.
pub type PosCorrections = Registry<(i32, i32)>;

/// Largest offset step, in either axis, that is taken as a correction;
/// larger differences are discarded as noise.
pub const MAX_CORRECTION_STEP: i32 = 200;

/// The offset learned for `label`, `(0, 0)` if none.
pub open spec fn correction(m: Map<Seq<char>, (i32, i32)>, label: Seq<char>) -> (i32, i32) {
    if m.contains_key(label) {
        m[label]
    } else {
        (0, 0)
    }
}

fn current(reg: &PosCorrections, label: &String) -> (r: (i32, i32))
    requires
        reg.wf(),
    ensures
        r == correction(reg@, label@),
{
    match reg.get(label) {
        Some(c) => *c,
        None => (0, 0),
    }
}

/// The position to ask for so that view `label` lands at `(x, y)`.
pub fn apply_pos_correction(reg: &PosCorrections, label: &String, x: i32, y: i32) -> (r: (i32, i32))
    requires
        reg.wf(),
        i32::MIN <= x + correction(reg@, label@).0 <= i32::MAX,
        i32::MIN <= y + correction(reg@, label@).1 <= i32::MAX,
    ensures
        r.0 == x + correction(reg@, label@).0,
        r.1 == y + correction(reg@, label@).1,
{
    let (dx, dy) = current(reg, label);
    (x + dx, y + dy)
}

/// Whether a measured difference is small enough to learn from.
pub open spec fn is_plausible_step(dx: i32, dy: i32) -> bool {
    -MAX_CORRECTION_STEP <= dx <= MAX_CORRECTION_STEP && -MAX_CORRECTION_STEP <= dy
        <= MAX_CORRECTION_STEP
}

/// Adds a measured difference to the offset of `label`, unless it is
/// implausibly large.
pub fn update_pos_correction(reg: &mut PosCorrections, label: &String, dx: i32, dy: i32)
    requires
        old(reg).wf(),
        is_plausible_step(dx, dy) ==> i32::MIN <= correction(old(reg)@, label@).0 + dx <= i32::MAX,
        is_plausible_step(dx, dy) ==> i32::MIN <= correction(old(reg)@, label@).1 + dy <= i32::MAX,
    ensures
        final(reg).wf(),
        !is_plausible_step(dx, dy) ==> final(reg)@ == old(reg)@,
        is_plausible_step(dx, dy) ==> final(reg)@ == old(reg)@.insert(
            label@,
            (
                (correction(old(reg)@, label@).0 + dx) as i32,
                (correction(old(reg)@, label@).1 + dy) as i32,
            ),
        ),
{
    if dx > MAX_CORRECTION_STEP || dx < -MAX_CORRECTION_STEP || dy > MAX_CORRECTION_STEP || dy
        < -MAX_CORRECTION_STEP {
        return ;
    }
    let (cur_dx, cur_dy) = current(reg, label);
    reg.insert(label.clone(), (cur_dx + dx, cur_dy + dy));
}

} // verus!
