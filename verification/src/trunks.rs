use vstd::prelude::*;

use crate::world::{
    Body, BodyType, ChipperEnt, ChipperState, ContactEvent, EmissionTimer, TrunkEnt, TrunkState,
    World, WorldView, MILLI,
};

verus! {

/// Where a fresh trunk appears, in milli-units.
pub const TRUNK_SPAWN_X_MM: i64 = 10_000;

pub const TRUNK_SPAWN_Y_MM: i64 = 5_000;

/// Initial linear velocity of a fresh trunk, in milli-units per second.
pub const TRUNK_SPAWN_VX_MM: i64 = -6_000;

pub const TRUNK_SPAWN_VY_MM: i64 = 3_000;

/// Initial angular velocity, in milli-radians per second.
pub const TRUNK_SPAWN_ANGVEL_MRAD: i64 = -500;

/// A trunk's inverse mass is 1/3000 and its inverse principal inertia
/// 1/300; the denominators are stored.
pub const TRUNK_INV_MASS_DENOM: u64 = 3000;

pub const TRUNK_INV_INERTIA_DENOM: u64 = 300;

/// A free trunk whose vertical position drops below this has fallen out
/// of the world and is reaped.
pub const LOST_TRUNK_Y_MM: i64 = -8_000;

/// The downward feed velocity forced on a kinematic trunk every tick.
pub const CHIP_FEED_VY_MM: i64 = -1_000;

/// The trunk a freshly spawned log is: free, dynamic, at the fixed spawn
/// transform with the fixed initial velocities and mass properties.
pub open spec fn initial_trunk(id: u64) -> TrunkEnt {
    TrunkEnt {
        id,
        state: TrunkState::Free,
        body: Body {
            body_type: BodyType::Dynamic,
            x_mm: TRUNK_SPAWN_X_MM,
            y_mm: TRUNK_SPAWN_Y_MM,
            rot_cos_mm: MILLI,
            rot_sin_mm: 0,
            vx_mm: TRUNK_SPAWN_VX_MM,
            vy_mm: TRUNK_SPAWN_VY_MM,
            angvel_mrad: TRUNK_SPAWN_ANGVEL_MRAD,
            inv_mass_denom: TRUNK_INV_MASS_DENOM,
            inv_inertia_denom: TRUNK_INV_INERTIA_DENOM,
        },
        timer: None,
    }
}

/// What one spawner pass does: a no-op while a trunk exists, else exactly
/// one fresh free trunk.
pub open spec fn spawn_trunk_step(w: WorldView) -> WorldView {
    if w.trunk is Some {
        w
    } else {
        WorldView { trunk: Some(initial_trunk(w.next_id)), next_id: (w.next_id + 1) as u64, ..w }
    }
}

/// One spawner pass: if no trunk exists, create exactly one with the fixed
/// spawn transform, velocities and mass properties, tagged free; otherwise
/// do nothing. Never a second trunk while one exists.
pub fn spawn_trunk(world: &mut World)
    requires
        old(world)@.wf(),
        old(world)@.next_id < u64::MAX,
    ensures
        final(world)@ == spawn_trunk_step(old(world)@),
        final(world)@.wf(),
        old(world)@.paired() ==> final(world)@.paired(),
        final(world)@.trunk_count() <= 1,
        old(world)@.trunk is Some ==> final(world)@ == old(world)@,
{
    if world.trunk.is_some() {
        return ;
    }
    let id = world.next_id;
    world.trunk = Some(
        TrunkEnt {
            id,
            state: TrunkState::Free,
            body: Body {
                body_type: BodyType::Dynamic,
                x_mm: TRUNK_SPAWN_X_MM,
                y_mm: TRUNK_SPAWN_Y_MM,
                rot_cos_mm: MILLI,
                rot_sin_mm: 0,
                vx_mm: TRUNK_SPAWN_VX_MM,
                vy_mm: TRUNK_SPAWN_VY_MM,
                angvel_mrad: TRUNK_SPAWN_ANGVEL_MRAD,
                inv_mass_denom: TRUNK_INV_MASS_DENOM,
                inv_inertia_denom: TRUNK_INV_INERTIA_DENOM,
            },
            timer: None,
        },
    );
    world.next_id = id + 1;
}

/// Order-independent matching of a collision pair: the canonical
/// (trunk, chipper) ids when the pair is exactly one trunk and one
/// chipper, and no match otherwise.
pub open spec fn trunk_chipper_pair(w: WorldView, a: u64, b: u64) -> Option<(u64, u64)> {
    if w.is_trunk_id(a) && w.is_chipper_id(b) {
        Some((a, b))
    } else if w.is_trunk_id(b) && w.is_chipper_id(a) {
        Some((b, a))
    } else {
        None
    }
}

fn trunk_chipper_pair_exec(world: &World, a: u64, b: u64) -> (r: Option<(u64, u64)>)
    ensures
        r == trunk_chipper_pair(world@, a, b),
{
    let a_trunk = is_trunk_entity(world, a);
    let b_trunk = is_trunk_entity(world, b);
    let a_chipper = a < world.chippers.len() as u64;
    let b_chipper = b < world.chippers.len() as u64;
    if a_trunk && b_chipper {
        Some((a, b))
    } else if b_trunk && a_chipper {
        Some((b, a))
    } else {
        None
    }
}

fn is_trunk_entity(world: &World, e: u64) -> (r: bool)
    ensures
        r == world@.is_trunk_id(e),
{
    match &world.trunk {
        Some(t) => t.id == e,
        None => false,
    }
}

/// What a collision-start notification does: when the pair is a free trunk
/// on a free chipper, the trunk turns kinematic and `InChipper`, the
/// chipper turns `Chipping`, and a zero-duration emission timer is
/// attached to the trunk; every other pair or state leaves the world
/// unchanged.
pub open spec fn trunk_start_step(w: WorldView, a: u64, b: u64) -> WorldView {
    match trunk_chipper_pair(w, a, b) {
        None => w,
        Some((t_id, c_id)) => {
            let t = w.trunk->Some_0;
            if t.state is Free && w.chippers[c_id as int].state is Free {
                WorldView {
                    trunk: Some(
                        TrunkEnt {
                            state: TrunkState::InChipper(c_id),
                            body: Body { body_type: BodyType::KinematicVelocityBased, ..t.body },
                            timer: Some(EmissionTimer { duration_ms: 0, elapsed_ms: 0 }),
                            ..t
                        },
                    ),
                    chippers: w.chippers.update(
                        c_id as int,
                        ChipperEnt { state: ChipperState::Chipping, ..w.chippers[c_id as int] },
                    ),
                    ..w
                }
            } else {
                w
            }
        },
    }
}

/// What a collision-stop notification does: only when the trunk is
/// `InChipper` of exactly the stopping chipper, that chipper returns to
/// `Free` and the trunk entity is destroyed; stale or unrelated stops
/// leave the world unchanged.
pub open spec fn trunk_stop_step(w: WorldView, a: u64, b: u64) -> WorldView {
    match trunk_chipper_pair(w, a, b) {
        None => w,
        Some((t_id, c_id)) => {
            let t = w.trunk->Some_0;
            if t.state == TrunkState::InChipper(c_id) {
                WorldView {
                    trunk: None,
                    chippers: w.chippers.update(
                        c_id as int,
                        ChipperEnt { state: ChipperState::Free, ..w.chippers[c_id as int] },
                    ),
                    ..w
                }
            } else {
                w
            }
        },
    }
}

pub open spec fn trunk_event_step(w: WorldView, e: ContactEvent) -> WorldView {
    match e {
        ContactEvent::Started(a, b) => trunk_start_step(w, a, b),
        ContactEvent::Stopped(a, b) => trunk_stop_step(w, a, b),
    }
}

pub open spec fn trunk_events_fold(w: WorldView, s: Seq<ContactEvent>) -> WorldView
    decreases s.len(),
{
    if s.len() == 0 {
        w
    } else {
        trunk_events_fold(trunk_event_step(w, s[0]), s.drop_first())
    }
}

proof fn lemma_trunk_events_fold_push(w: WorldView, s: Seq<ContactEvent>, e: ContactEvent)
    ensures
        trunk_events_fold(w, s.push(e)) == trunk_event_step(trunk_events_fold(w, s), e),
    decreases s.len(),
{
    if s.len() == 0 {
        assert(s.push(e)[0] == e);
        assert(s.push(e).drop_first() =~= Seq::<ContactEvent>::empty());
        assert(trunk_events_fold(w, s) == w);
        assert(trunk_events_fold(trunk_event_step(w, e), Seq::<ContactEvent>::empty())
            == trunk_event_step(w, e));
    } else {
        assert(s.push(e)[0] == s[0]);
        assert(s.push(e).drop_first() =~= s.drop_first().push(e));
        lemma_trunk_events_fold_push(trunk_event_step(w, s[0]), s.drop_first(), e);
    }
}

/// React to one trunk/chipper collision notification.
pub fn handle_trunk_contact_event(world: &mut World, event: ContactEvent)
    requires
        old(world)@.wf(),
    ensures
        final(world)@ == trunk_event_step(old(world)@, event),
        final(world)@.next_id == old(world)@.next_id,
        final(world)@.wf(),
        old(world)@.paired() ==> final(world)@.paired(),
{
    match event {
        ContactEvent::Started(a, b) => {
            match trunk_chipper_pair_exec(world, a, b) {
                None => {},
                Some((t_id, c_id)) => {
                    proof {
                        assert(world@.is_chipper_id(c_id));
                    }
                    let t = world.trunk.unwrap();
                    let len = world.chippers.len();
                    proof {
                        assert(c_id < len as u64);
                    }
                    let c_idx = c_id as usize;
                    let chipper = world.chippers[c_idx];
                    if matches!(t.state, TrunkState::Free) && matches!(
                        chipper.state,
                        ChipperState::Free,
                    ) {
                        world.trunk = Some(
                            TrunkEnt {
                                state: TrunkState::InChipper(c_id),
                                body: Body {
                                    body_type: BodyType::KinematicVelocityBased,
                                    ..t.body
                                },
                                timer: Some(EmissionTimer { duration_ms: 0, elapsed_ms: 0 }),
                                ..t
                            },
                        );
                        world.chippers.set(
                            c_idx,
                            ChipperEnt { state: ChipperState::Chipping, ..chipper },
                        );
                    }
                },
            }
        },
        ContactEvent::Stopped(a, b) => {
            match trunk_chipper_pair_exec(world, a, b) {
                None => {},
                Some((t_id, c_id)) => {
                    proof {
                        assert(world@.is_chipper_id(c_id));
                    }
                    let t = world.trunk.unwrap();
                    if let TrunkState::InChipper(c) = t.state {
                        if c == c_id {
                            proof {
                                assert(world@.wf_pairing());
                                assert(world@.chippers[c_id as int].state is Chipping);
                            }
                            let len = world.chippers.len();
                            proof {
                                assert(c_id < len as u64);
                            }
                            let c_idx = c_id as usize;
                            let chipper = world.chippers[c_idx];
                            // A state-machine guarantee, not a runtime check:
                            // the chipper a trunk exits is always mid-chipping.
                            assert(chipper.state is Chipping);
                            world.chippers.set(
                                c_idx,
                                ChipperEnt { state: ChipperState::Free, ..chipper },
                            );
                            world.trunk = None;
                        }
                    }
                },
            }
        },
    }
}

/// React, in order, to a tick's batch of collision notifications between
/// trunks and chippers.
pub fn handle_trunk_hitting_chipper(world: &mut World, events: &Vec<ContactEvent>)
    requires
        old(world)@.wf(),
    ensures
        final(world)@ == trunk_events_fold(old(world)@, events@),
        final(world)@.next_id == old(world)@.next_id,
        final(world)@.wf(),
        old(world)@.paired() ==> final(world)@.paired(),
{
    let ghost w0 = world@;
    let n = events.len();
    let mut i: usize = 0;
    while i < n
        invariant
            n == events@.len(),
            i <= n,
            world@ == trunk_events_fold(w0, events@.take(i as int)),
            world@.next_id == w0.next_id,
            world@.wf(),
            w0.paired() ==> world@.paired(),
        decreases n - i,
    {
        let e = events[i];
        proof {
            lemma_trunk_events_fold_push(w0, events@.take(i as int), events@[i as int]);
            assert(events@.take(i as int).push(events@[i as int]) =~= events@.take(i as int + 1));
        }
        handle_trunk_contact_event(world, e);
        i = i + 1;
    }
    proof {
        assert(events@.take(n as int) =~= events@);
    }
}

/// What the per-tick kinematic driver does: a kinematic trunk's linear
/// velocity is forced to the fixed downward feed vector.
pub open spec fn kinematic_drive_step(w: WorldView) -> WorldView {
    match w.trunk {
        None => w,
        Some(t) => {
            if t.body.body_type is KinematicVelocityBased {
                WorldView {
                    trunk: Some(
                        TrunkEnt { body: Body { vx_mm: 0, vy_mm: CHIP_FEED_VY_MM, ..t.body }, ..t },
                    ),
                    ..w
                }
            } else {
                w
            }
        },
    }
}

/// Every tick, force the linear velocity of every kinematic-velocity
/// trunk to the fixed downward feed vector, overriding any other source.
pub fn move_kinematic_trunks(world: &mut World)
    requires
        old(world)@.wf(),
    ensures
        final(world)@ == kinematic_drive_step(old(world)@),
        final(world)@.next_id == old(world)@.next_id,
        final(world)@.wf(),
        old(world)@.paired() ==> final(world)@.paired(),
{
    match &world.trunk {
        None => {},
        Some(t) => {
            let t = *t;
            if matches!(t.body.body_type, BodyType::KinematicVelocityBased) {
                world.trunk = Some(
                    TrunkEnt { body: Body { vx_mm: 0, vy_mm: CHIP_FEED_VY_MM, ..t.body }, ..t },
                );
            }
        },
    }
}

/// What the reaper does: a free trunk strictly below the cutoff is
/// destroyed; anything else is kept.
pub open spec fn reap_lost_trunk_step(w: WorldView) -> WorldView {
    match w.trunk {
        None => w,
        Some(t) => {
            if t.state is Free && t.body.y_mm < LOST_TRUNK_Y_MM {
                WorldView { trunk: None, ..w }
            } else {
                w
            }
        },
    }
}

/// Every tick, destroy a free trunk that has fallen below the vertical
/// cutoff; a trunk at or above it, or one being chipped, is kept.
pub fn handle_lost_trunks(world: &mut World)
    requires
        old(world)@.wf(),
    ensures
        final(world)@ == reap_lost_trunk_step(old(world)@),
        final(world)@.next_id == old(world)@.next_id,
        final(world)@.wf(),
        old(world)@.paired() ==> final(world)@.paired(),
{
    match &world.trunk {
        None => {},
        Some(t) => {
            if matches!(t.state, TrunkState::Free) && t.body.y_mm < LOST_TRUNK_Y_MM {
                world.trunk = None;
            }
        },
    }
}

} // verus!
