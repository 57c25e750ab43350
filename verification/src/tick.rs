use vstd::prelude::*;

use crate::trunks::{
    handle_lost_trunks, handle_trunk_hitting_chipper, kinematic_drive_step, move_kinematic_trunks,
    reap_lost_trunk_step, spawn_trunk, spawn_trunk_step, trunk_events_fold,
};
use crate::woodchips::{
    emitter_step, handle_chip_hitting_chipper, jam_events_fold, jam_pauses_fold, spawn_woodchips,
};
use crate::world::{Contact, ContactEvent, World, WorldView};

verus! {

/// What one whole simulation tick does, in the fixed system order the
/// game registers: spawn, then both collision handlers over the tick's
/// event batch (trunks first, then woodchips), then the kinematic drive,
/// then the emitter, then lost-trunk cleanup.
pub open spec fn tick_step(
    w: WorldView,
    delta_ms: u64,
    events: Seq<ContactEvent>,
    contacts: Seq<Contact>,
    ux: u64,
    uy: u64,
    ua: u64,
    ud: u64,
) -> WorldView {
    let after_spawn = spawn_trunk_step(w);
    let after_trunks = trunk_events_fold(after_spawn, events);
    let after_jams = jam_events_fold(after_trunks, events);
    let after_drive = kinematic_drive_step(after_jams);
    let after_emit = emitter_step(after_drive, delta_ms, contacts, ux, uy, ua, ud);
    reap_lost_trunk_step(after_emit)
}

/// The chippers a tick newly jams, in event order.
pub open spec fn tick_pauses(w: WorldView, events: Seq<ContactEvent>) -> Seq<u64> {
    jam_pauses_fold(trunk_events_fold(spawn_trunk_step(w), events), events)
}

/// One whole simulation tick: every pass once, in the fixed order. The
/// returned list holds the chippers newly jammed this tick, whose child
/// blade animations the caller must pause.
pub fn run_tick(
    world: &mut World,
    delta_ms: u64,
    events: &Vec<ContactEvent>,
    contacts: &Vec<Contact>,
    ux: u64,
    uy: u64,
    ua: u64,
    ud: u64,
) -> (pauses: Vec<u64>)
    requires
        old(world)@.wf(),
        old(world)@.next_id < u64::MAX - 1,
        ux < 1000,
        uy < 1000,
        ua < 1000,
        ud < 1000,
    ensures
        final(world)@ == tick_step(old(world)@, delta_ms, events@, contacts@, ux, uy, ua, ud),
        pauses@ == tick_pauses(old(world)@, events@),
        final(world)@.wf(),
{
    spawn_trunk(world);
    handle_trunk_hitting_chipper(world, events);
    let pauses = handle_chip_hitting_chipper(world, events);
    move_kinematic_trunks(world);
    spawn_woodchips(world, delta_ms, contacts, ux, uy, ua, ud);
    handle_lost_trunks(world);
    pauses
}

} // verus!
