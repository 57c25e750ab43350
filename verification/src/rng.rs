use vstd::prelude::*;

use crate::tick::{run_tick, tick_pauses, tick_step};
use crate::woodchips::{emitter_step, spawn_woodchips};
use crate::world::{Contact, ContactEvent, World};

verus! {

/// Relies on rand::Rng::gen_range, called on rand::thread_rng's
/// generator: the draw lies in the half-open range it is given, here
/// [0, 1000) — a uniform unit draw scaled by 1000.
#[verifier::external_body]
fn sample_unit_mill() -> (r: u64)
    ensures
        r < 1000,
{
    rand::Rng::gen_range(&mut rand::thread_rng(), 0u64..1000u64)
}

/// One emitter pass with the four unit draws taken fresh from the
/// process random generator. Whatever was drawn, the world advances by
/// `emitter_step` for some quadruple of unit draws.
pub fn spawn_woodchips_sampled(world: &mut World, delta_ms: u64, contacts: &Vec<Contact>)
    requires
        old(world)@.wf(),
        old(world)@.next_id < u64::MAX,
    ensures
        exists|ux: u64, uy: u64, ua: u64, ud: u64|
            ux < 1000 && uy < 1000 && ua < 1000 && ud < 1000 && final(world)@ == emitter_step(
                old(world)@,
                delta_ms,
                contacts@,
                ux,
                uy,
                ua,
                ud,
            ),
        final(world)@.wf(),
        (old(world)@.paired() && final(world)@.trunk is Some) ==> final(world)@.paired(),
{
    let ux = sample_unit_mill();
    let uy = sample_unit_mill();
    let ua = sample_unit_mill();
    let ud = sample_unit_mill();
    spawn_woodchips(world, delta_ms, contacts, ux, uy, ua, ud);
}

/// One whole simulation tick with fresh random draws. Whatever was
/// drawn, the world advances by `tick_step` for some quadruple of unit
/// draws, and the returned list holds the chippers the tick newly
/// jammed, whose child blade animations the caller must pause.
pub fn run_tick_sampled(
    world: &mut World,
    delta_ms: u64,
    events: &Vec<ContactEvent>,
    contacts: &Vec<Contact>,
) -> (pauses: Vec<u64>)
    requires
        old(world)@.wf(),
        old(world)@.next_id < u64::MAX - 1,
    ensures
        exists|ux: u64, uy: u64, ua: u64, ud: u64|
            ux < 1000 && uy < 1000 && ua < 1000 && ud < 1000 && final(world)@ == tick_step(
                old(world)@,
                delta_ms,
                events@,
                contacts@,
                ux,
                uy,
                ua,
                ud,
            ),
        pauses@ == tick_pauses(old(world)@, events@),
        final(world)@.wf(),
{
    let ux = sample_unit_mill();
    let uy = sample_unit_mill();
    let ua = sample_unit_mill();
    let ud = sample_unit_mill();
    run_tick(world, delta_ms, events, contacts, ux, uy, ua, ud)
}

} // verus!
