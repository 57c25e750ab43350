use vstd::math::abs;
use vstd::prelude::*;

use crate::trunks::{
    reap_lost_trunk_step, spawn_trunk_step, trunk_chipper_pair, trunk_start_step, LOST_TRUNK_Y_MM,
};
use crate::woodchips::{
    chip_index_of, jam_step, jam_step_pause, resampled_timer, timer_fires, DISCARD_COS_MM,
};
use crate::world::{EmissionTimer, TrunkState, WoodchipState, WorldView};

verus! {

/// At most one trunk exists at any time: the store itself holds zero or
/// one, and a spawner pass while one exists changes nothing, so spawning
/// never adds a second.
pub proof fn lemma_at_most_one_trunk(w: WorldView)
    ensures
        w.trunk_count() <= 1,
        w.trunk is Some ==> spawn_trunk_step(w) == w,
        spawn_trunk_step(w).trunk_count() == 1,
{
}

/// State pairing, both directions: in a well-formed store with full
/// pairing, a trunk being consumed names a `Chipping` chipper, and every
/// `Chipping` chipper is consuming the trunk that names it.
pub proof fn lemma_state_pairing(w: WorldView)
    requires
        w.wf(),
        w.paired(),
    ensures
        w.trunk matches Some(t) ==> (t.state matches TrunkState::InChipper(c) ==> c
            < w.chippers.len() && w.chippers[c as int].state is Chipping),
        forall|c: int|
            0 <= c < w.chippers.len() && (#[trigger] w.chippers[c]).state is Chipping ==> (
            w.trunk matches Some(t) && t.state == TrunkState::InChipper(c as u64)),
{
}

/// Jam implies stuck and stuck implies jam: in any well-formed store a
/// stuck woodchip's chipper is jammed, and a jammed chipper holds a stuck
/// woodchip.
pub proof fn lemma_jam_iff_stuck(w: WorldView)
    requires
        w.wf(),
    ensures
        forall|j: int|
            0 <= j < w.woodchips.len() ==> ((#[trigger] w.woodchips[j]).state matches
                WoodchipState::StuckInChipper(c) ==> c < w.chippers.len() && w.chippers[
                c as int
            ].is_jammed),
        forall|c: int|
            0 <= c < w.chippers.len() && (#[trigger] w.chippers[c]).is_jammed
                ==> w.some_chip_stuck_in(c),
{
}

/// No double-chip: a trunk/chipper collision start at a chipper that is
/// not free (already `Chipping`) leaves the world unchanged.
pub proof fn lemma_no_double_chip(w: WorldView, a: u64, b: u64, t_id: u64, c_id: u64)
    requires
        w.wf(),
        trunk_chipper_pair(w, a, b) == Some((t_id, c_id)),
        !(w.chippers[c_id as int].state is Free),
    ensures
        trunk_start_step(w, a, b) == w,
{
}

/// Emission cadence: the timer attached on collision start (zero
/// duration) fires on the very next tick whatever the frame time, and
/// every resampled delay lies in [1000ms, 6000ms) and starts from zero.
pub proof fn lemma_emission_cadence(delta_ms: u64, ud: u64)
    requires
        ud < 1000,
    ensures
        timer_fires(EmissionTimer { duration_ms: 0, elapsed_ms: 0 }, delta_ms),
        1000 <= resampled_timer(ud).duration_ms < 6000,
        resampled_timer(ud).elapsed_ms == 0,
{
}

/// Discard angle boundary: a free woodchip striking an unjammed chipper
/// is destroyed exactly when the magnitude of its rotation cosine is
/// strictly below the bound; at the boundary or above it embeds and jams
/// the chipper.
pub proof fn lemma_discard_angle(w: WorldView, a: u64, b: u64, chip_id: u64, c_id: u64)
    requires
        w.wf(),
        crate::woodchips::woodchip_chipper_pair(w, a, b) == Some((chip_id, c_id)),
        !w.chippers[c_id as int].is_jammed,
        w.woodchips[chip_index_of(w.woodchips, chip_id)].state is Free,
    ensures
        abs(w.woodchips[chip_index_of(w.woodchips, chip_id)].body.rot_cos_mm as int)
            < DISCARD_COS_MM ==> {
            &&& jam_step(w, a, b) == (WorldView {
                woodchips: w.woodchips.remove(chip_index_of(w.woodchips, chip_id)),
                ..w
            })
            &&& jam_step_pause(w, a, b) is None
        },
        abs(w.woodchips[chip_index_of(w.woodchips, chip_id)].body.rot_cos_mm as int)
            >= DISCARD_COS_MM ==> {
            &&& jam_step(w, a, b).chippers[c_id as int].is_jammed
            &&& jam_step(w, a, b).woodchips[chip_index_of(w.woodchips, chip_id)].state
                == WoodchipState::StuckInChipper(c_id)
            &&& jam_step_pause(w, a, b) == Some(c_id)
        },
{
}

/// Lost-trunk cleanup boundary: a free trunk strictly below the vertical
/// cutoff is removed by one reaper pass; at or above the cutoff it stays,
/// as does a trunk being chipped.
pub proof fn lemma_lost_trunk_boundary(w: WorldView)
    requires
        w.trunk matches Some(t) && t.state is Free,
    ensures
        w.trunk->Some_0.body.y_mm < LOST_TRUNK_Y_MM ==> reap_lost_trunk_step(w) == (WorldView {
            trunk: None,
            ..w
        }),
        w.trunk->Some_0.body.y_mm >= LOST_TRUNK_Y_MM ==> reap_lost_trunk_step(w) == w,
{
}

} // verus!
