use vstd::math::abs;
use vstd::prelude::*;

use crate::world::{
    rot_wf, trunk_body_wf, Body, BodyType, ChipperEnt, Contact, ContactEvent, EmissionTimer,
    TrunkEnt, WoodchipEnt, WoodchipState, World, WorldView,
};

verus! {

/// A woodchip's inverse mass is 1/30 and its inverse principal inertia
/// 1/3; the denominators are stored.
pub const CHIP_INV_MASS_DENOM: u64 = 30;

pub const CHIP_INV_INERTIA_DENOM: u64 = 3;

/// Woodchips are emitted from a point whose height is fixed at 0.5 world
/// units, whatever the trunk's tilt.
pub const EMISSION_HEIGHT_MM: i64 = 500;

/// A woodchip hitting the chipper with |rotation cosine| strictly below
/// this grazes past and is discarded; at or above it, it jams.
pub const DISCARD_COS_MM: i64 = 500;

/// Integer division truncating toward zero, as the machine division does.
pub open spec fn trunc_div(a: int, b: int) -> int
    recommends
        b != 0,
{
    if (a < 0) == (b < 0) {
        (abs(a) / abs(b)) as int
    } else {
        -((abs(a) / abs(b)) as int)
    }
}

/// Division of `a` by `b`, truncated toward zero.
pub fn trunc_div_i64(a: i64, b: i64) -> (q: i64)
    requires
        b != 0,
        a != i64::MIN,
        b != i64::MIN,
    ensures
        q == trunc_div(a as int, b as int),
        -(abs(a as int) as int) <= q <= abs(a as int),
{
    let am: u64 = if a < 0 {
        (0 - a) as u64
    } else {
        a as u64
    };
    let bm: u64 = if b < 0 {
        (0 - b) as u64
    } else {
        b as u64
    };
    proof {
        assert(am == abs(a as int));
        assert(bm == abs(b as int));
        assert(am / bm <= am) by (nonlinear_arith)
            requires
                bm >= 1,
        ;
    }
    let qm: u64 = am / bm;
    if (a < 0) != (b < 0) {
        0 - (qm as i64)
    } else {
        qm as i64
    }
}

/// World x of the trunk's upper end cap: the center displaced by the
/// rotated local X axis, toward whichever end lies higher.
pub open spec fn upper_endcap_x(b: Body) -> int {
    if b.rot_sin_mm > 0 {
        b.x_mm + b.rot_cos_mm
    } else {
        b.x_mm - b.rot_cos_mm
    }
}

/// World y of the trunk's upper end cap.
pub open spec fn upper_endcap_y(b: Body) -> int {
    if b.rot_sin_mm > 0 {
        b.y_mm + b.rot_sin_mm
    } else {
        b.y_mm - b.rot_sin_mm
    }
}

/// X component of the emission direction: upper end cap minus center.
pub open spec fn spawn_dir_x_mm(b: Body) -> int {
    if b.rot_sin_mm > 0 {
        b.rot_cos_mm as int
    } else {
        -(b.rot_cos_mm as int)
    }
}

pub open spec fn signum(x: int) -> int {
    if x > 0 {
        1
    } else if x < 0 {
        -1
    } else {
        0
    }
}

/// Where a woodchip is emitted: the upper end cap, slid along the trunk's
/// local up axis until its height is exactly `EMISSION_HEIGHT_MM`. The
/// slide divides by the slope (the rotation cosine); a trunk lying flat
/// (cosine zero) has no such point and emission is skipped that tick.
/// The y coordinate needs no division: sliding by
/// (height - cap_y)/slope along an axis whose y component is the slope
/// lands exactly on the fixed height.
pub open spec fn emission_point(b: Body) -> Option<(int, int)> {
    if b.rot_cos_mm == 0 {
        None
    } else {
        Some(
            (
                upper_endcap_x(b) + trunc_div(
                    -(b.rot_sin_mm as int) * (EMISSION_HEIGHT_MM - upper_endcap_y(b)),
                    b.rot_cos_mm as int,
                ),
                EMISSION_HEIGHT_MM as int,
            ),
        )
    }
}

/// Compute the emission point of a trunk body, if its tilt admits one.
pub fn emission_point_exec(b: &Body) -> (r: Option<(i64, i64)>)
    requires
        trunk_body_wf(*b),
    ensures
        r is Some <==> emission_point(*b) is Some,
        (r matches Some(p) ==> emission_point(*b) == Some((p.0 as int, p.1 as int))),
{
    if b.rot_cos_mm == 0 {
        return None;
    }
    let cx = if b.rot_sin_mm > 0 {
        b.x_mm + b.rot_cos_mm
    } else {
        b.x_mm - b.rot_cos_mm
    };
    let cy = if b.rot_sin_mm > 0 {
        b.y_mm + b.rot_sin_mm
    } else {
        b.y_mm - b.rot_sin_mm
    };
    let s: i64 = 0 - b.rot_sin_mm;
    let d: i64 = EMISSION_HEIGHT_MM - cy;
    proof {
        assert(-1_100_000_000_000_000 <= (s as int) * (d as int) <= 1_100_000_000_000_000)
            by (nonlinear_arith)
            requires
                -1000 <= s as int <= 1000,
                -1_000_000_002_000 <= d as int <= 1_000_000_002_000,
        ;
    }
    let num = s * d;
    let q = trunc_div_i64(num, b.rot_cos_mm);
    Some((cx + q, EMISSION_HEIGHT_MM))
}

/// The timer fires on the tick where the elapsed time reaches its
/// duration.
pub open spec fn timer_fires(tm: EmissionTimer, delta_ms: u64) -> bool {
    tm.elapsed_ms + delta_ms >= tm.duration_ms
}

/// The countdown restarted after a firing: 1.0s plus 5.0s scaled by a
/// fresh uniform unit draw, so in [1000ms, 6000ms).
pub open spec fn resampled_timer(ud: u64) -> EmissionTimer {
    EmissionTimer { duration_ms: (1000 + 5 * ud) as u64, elapsed_ms: 0 }
}

/// Whether an entry of the narrow-phase contact set links entity `e` to
/// some chipper through an active contact.
pub open spec fn contact_links_chipper(w: WorldView, c: Contact, e: u64) -> bool {
    c.has_any_active_contact && ((c.collider1 == e && w.is_chipper_id(c.collider2)) || (
    c.collider2 == e && w.is_chipper_id(c.collider1)))
}

/// Whether entity `e` is in active contact with any chipper, as the
/// physics narrow phase reports it.
pub open spec fn has_chipper_contact(w: WorldView, contacts: Seq<Contact>, e: u64) -> bool {
    exists|i: int| 0 <= i < contacts.len() && contact_links_chipper(w, #[trigger] contacts[i], e)
}

fn has_chipper_contact_exec(world: &World, contacts: &Vec<Contact>, e: u64) -> (r: bool)
    ensures
        r == has_chipper_contact(world@, contacts@, e),
{
    let n = contacts.len();
    let mut i: usize = 0;
    while i < n
        invariant
            n == contacts@.len(),
            i <= n,
            forall|k: int| 0 <= k < i ==> !contact_links_chipper(world@, #[trigger] contacts@[k], e),
        decreases n - i,
    {
        let c = contacts[i];
        let len_u64 = world.chippers.len() as u64;
        if c.has_any_active_contact && ((c.collider1 == e && c.collider2 < len_u64) || (c.collider2
            == e && c.collider1 < len_u64)) {
            proof {
                assert(contact_links_chipper(world@, contacts@[i as int], e));
            }
            return true;
        }
        i = i + 1;
    }
    false
}

/// The woodchip emitted from trunk `t` of world `w`: a fresh dynamic body
/// at the emission point, with the trunk's rotation, the chip mass
/// properties, and the randomized ballistic velocity built from the three
/// unit draws.
pub open spec fn emitted_chip(w: WorldView, ux: u64, uy: u64, ua: u64) -> WoodchipEnt
    recommends
        w.trunk is Some,
        emission_point(w.trunk->Some_0.body) is Some,
{
    let t = w.trunk->Some_0;
    let ep = emission_point(t.body)->Some_0;
    WoodchipEnt {
        id: w.next_id,
        state: WoodchipState::Free,
        body: Body {
            body_type: BodyType::Dynamic,
            x_mm: ep.0 as i64,
            y_mm: ep.1 as i64,
            rot_cos_mm: t.body.rot_cos_mm,
            rot_sin_mm: t.body.rot_sin_mm,
            vx_mm: ((3000 + 2 * ux) * signum(spawn_dir_x_mm(t.body))) as i64,
            vy_mm: (5000 + 7 * uy) as i64,
            angvel_mrad: (10 * ua - 5000) as i64,
            inv_mass_denom: CHIP_INV_MASS_DENOM,
            inv_inertia_denom: CHIP_INV_INERTIA_DENOM,
        },
    }
}

/// What one emitter pass does, given the frame time, the contact set and
/// the four unit draws. With no timer-bearing trunk it is a no-op. A
/// timer that does not expire only accumulates time. On expiry: a
/// non-first firing (non-zero duration) whose trunk lost contact with
/// every chipper destroys the trunk; otherwise a woodchip is emitted
/// (skipped only for a flat trunk, which has no emission point), and in
/// either case the timer restarts with a fresh duration.
pub open spec fn emitter_step(
    w: WorldView,
    delta_ms: u64,
    contacts: Seq<Contact>,
    ux: u64,
    uy: u64,
    ua: u64,
    ud: u64,
) -> WorldView {
    match w.trunk {
        None => w,
        Some(t) => match t.timer {
            None => w,
            Some(tm) => {
                if !timer_fires(tm, delta_ms) {
                    WorldView {
                        trunk: Some(
                            TrunkEnt {
                                timer: Some(
                                    EmissionTimer {
                                        elapsed_ms: (tm.elapsed_ms + delta_ms) as u64,
                                        ..tm
                                    },
                                ),
                                ..t
                            },
                        ),
                        ..w
                    }
                } else if tm.duration_ms != 0 && !has_chipper_contact(w, contacts, t.id) {
                    WorldView { trunk: None, ..w }
                } else {
                    let rearmed = WorldView {
                        trunk: Some(TrunkEnt { timer: Some(resampled_timer(ud)), ..t }),
                        ..w
                    };
                    if emission_point(t.body) is Some {
                        WorldView {
                            woodchips: w.woodchips.push(emitted_chip(w, ux, uy, ua)),
                            next_id: (w.next_id + 1) as u64,
                            ..rearmed
                        }
                    } else {
                        rearmed
                    }
                }
            },
        },
    }
}

/// One emitter pass over the trunk's emission timer, with the frame time,
/// the physics contact set, and four fresh uniform unit draws (each in
/// [0, 1000), standing for [0, 1) scaled): `ux`, `uy`, `ua` drive the
/// emitted chip's x velocity, y velocity and angular velocity, `ud` the
/// next emission delay.
pub fn spawn_woodchips(
    world: &mut World,
    delta_ms: u64,
    contacts: &Vec<Contact>,
    ux: u64,
    uy: u64,
    ua: u64,
    ud: u64,
)
    requires
        old(world)@.wf(),
        old(world)@.next_id < u64::MAX,
        ux < 1000,
        uy < 1000,
        ua < 1000,
        ud < 1000,
    ensures
        final(world)@ == emitter_step(old(world)@, delta_ms, contacts@, ux, uy, ua, ud),
        final(world)@.wf(),
        (old(world)@.paired() && final(world)@.trunk is Some) ==> final(world)@.paired(),
{
    let t = match &world.trunk {
        None => {
            return ;
        },
        Some(t) => *t,
    };
    let tm = match t.timer {
        None => {
            return ;
        },
        Some(tm) => tm,
    };
    let fires = delta_ms >= tm.duration_ms - tm.elapsed_ms;
    if !fires {
        world.trunk = Some(
            TrunkEnt { timer: Some(EmissionTimer { elapsed_ms: tm.elapsed_ms + delta_ms, ..tm }), ..t },
        );
        return ;
    }
    if tm.duration_ms != 0 {
        if !has_chipper_contact_exec(world, contacts, t.id) {
            world.trunk = None;
            return ;
        }
    }
    match emission_point_exec(&t.body) {
        None => {},
        Some((ex, ey)) => {
            let sdx = if t.body.rot_sin_mm > 0 {
                t.body.rot_cos_mm
            } else {
                0 - t.body.rot_cos_mm
            };
            let sgn: i64 = if sdx > 0 {
                1
            } else if sdx < 0 {
                -1
            } else {
                0
            };
            let mag: i64 = 3000 + 2 * (ux as i64);
            proof {
                assert(-5000 <= (mag as int) * (sgn as int) <= 5000) by (nonlinear_arith)
                    requires
                        3000 <= mag as int <= 4998,
                        -1 <= sgn as int <= 1,
                ;
            }
            let chip = WoodchipEnt {
                id: world.next_id,
                state: WoodchipState::Free,
                body: Body {
                    body_type: BodyType::Dynamic,
                    x_mm: ex,
                    y_mm: ey,
                    rot_cos_mm: t.body.rot_cos_mm,
                    rot_sin_mm: t.body.rot_sin_mm,
                    vx_mm: mag * sgn,
                    vy_mm: 5000 + 7 * (uy as i64),
                    angvel_mrad: 10 * (ua as i64) - 5000,
                    inv_mass_denom: CHIP_INV_MASS_DENOM,
                    inv_inertia_denom: CHIP_INV_INERTIA_DENOM,
                },
            };
            world.woodchips.push(chip);
            world.next_id = world.next_id + 1;
            proof {
                assert forall|c2: int|
                    0 <= c2 < world@.chippers.len() && (#[trigger] world@.chippers[c2]).is_jammed
                    implies world@.some_chip_stuck_in(c2) by {
                    let j = choose|j: int|
                        0 <= j < old(world)@.woodchips.len() && (#[trigger] old(
                            world,
                        )@.woodchips[j]).state == WoodchipState::StuckInChipper(c2 as u64);
                    assert(world@.woodchips[j].state == WoodchipState::StuckInChipper(c2 as u64));
                }
            }
        },
    }
    world.trunk = Some(TrunkEnt { timer: Some(EmissionTimer { duration_ms: 1000 + 5 * ud, elapsed_ms: 0 }), ..t });
}

/// Index of the woodchip carrying entity id `e`; unique when the store is
/// well formed.
pub open spec fn chip_index_of(chips: Seq<WoodchipEnt>, e: u64) -> int {
    choose|j: int| 0 <= j < chips.len() && (#[trigger] chips[j]).id == e
}

/// Order-independent matching of a collision pair: the canonical
/// (woodchip, chipper) ids when the pair is exactly one woodchip and one
/// chipper, and no match otherwise.
pub open spec fn woodchip_chipper_pair(w: WorldView, a: u64, b: u64) -> Option<(u64, u64)> {
    if w.is_woodchip_id(a) && w.is_chipper_id(b) {
        Some((a, b))
    } else if w.is_woodchip_id(b) && w.is_chipper_id(a) {
        Some((b, a))
    } else {
        None
    }
}

/// What a woodchip/chipper collision start does: nothing on a jammed
/// chipper or a non-free chip; a chip striking with |rotation cosine|
/// below the discard bound grazes past and is destroyed; otherwise the
/// chip embeds (frozen static, `StuckInChipper`) and the chipper jams.
pub open spec fn jam_step(w: WorldView, a: u64, b: u64) -> WorldView {
    match woodchip_chipper_pair(w, a, b) {
        None => w,
        Some((chip_id, c_id)) => {
            if w.chippers[c_id as int].is_jammed {
                w
            } else {
                let j = chip_index_of(w.woodchips, chip_id);
                let chip = w.woodchips[j];
                if !(chip.state is Free) {
                    w
                } else if abs(chip.body.rot_cos_mm as int) < DISCARD_COS_MM {
                    WorldView { woodchips: w.woodchips.remove(j), ..w }
                } else {
                    WorldView {
                        woodchips: w.woodchips.update(
                            j,
                            WoodchipEnt {
                                state: WoodchipState::StuckInChipper(c_id),
                                body: Body { body_type: BodyType::Static, ..chip.body },
                                ..chip
                            },
                        ),
                        chippers: w.chippers.update(
                            c_id as int,
                            ChipperEnt { is_jammed: true, ..w.chippers[c_id as int] },
                        ),
                        ..w
                    }
                }
            }
        },
    }
}

/// The chipper whose child blade animations must be paused because this
/// event jammed it, if any.
pub open spec fn jam_step_pause(w: WorldView, a: u64, b: u64) -> Option<u64> {
    match woodchip_chipper_pair(w, a, b) {
        None => None,
        Some((chip_id, c_id)) => {
            if w.chippers[c_id as int].is_jammed {
                None
            } else {
                let chip = w.woodchips[chip_index_of(w.woodchips, chip_id)];
                if !(chip.state is Free) {
                    None
                } else if abs(chip.body.rot_cos_mm as int) < DISCARD_COS_MM {
                    None
                } else {
                    Some(c_id)
                }
            }
        },
    }
}

pub open spec fn jam_event_step(w: WorldView, e: ContactEvent) -> WorldView {
    match e {
        ContactEvent::Started(a, b) => jam_step(w, a, b),
        ContactEvent::Stopped(_, _) => w,
    }
}

pub open spec fn jam_event_pause(w: WorldView, e: ContactEvent) -> Option<u64> {
    match e {
        ContactEvent::Started(a, b) => jam_step_pause(w, a, b),
        ContactEvent::Stopped(_, _) => None,
    }
}

pub open spec fn opt_seq(o: Option<u64>) -> Seq<u64> {
    match o {
        None => Seq::empty(),
        Some(c) => seq![c],
    }
}

pub open spec fn jam_events_fold(w: WorldView, s: Seq<ContactEvent>) -> WorldView
    decreases s.len(),
{
    if s.len() == 0 {
        w
    } else {
        jam_events_fold(jam_event_step(w, s[0]), s.drop_first())
    }
}

/// The chippers jammed by a batch of events, in event order.
pub open spec fn jam_pauses_fold(w: WorldView, s: Seq<ContactEvent>) -> Seq<u64>
    decreases s.len(),
{
    if s.len() == 0 {
        Seq::empty()
    } else {
        opt_seq(jam_event_pause(w, s[0])) + jam_pauses_fold(jam_event_step(w, s[0]), s.drop_first())
    }
}

proof fn lemma_jam_fold_push(w: WorldView, s: Seq<ContactEvent>, e: ContactEvent)
    ensures
        jam_events_fold(w, s.push(e)) == jam_event_step(jam_events_fold(w, s), e),
        jam_pauses_fold(w, s.push(e)) == jam_pauses_fold(w, s) + opt_seq(
            jam_event_pause(jam_events_fold(w, s), e),
        ),
    decreases s.len(),
{
    if s.len() == 0 {
        assert(s.push(e)[0] == e);
        assert(s.push(e).drop_first() =~= Seq::<ContactEvent>::empty());
        assert(jam_events_fold(jam_event_step(w, e), Seq::<ContactEvent>::empty())
            == jam_event_step(w, e));
        assert(jam_events_fold(w, s) == w);
        assert(jam_pauses_fold(jam_event_step(w, e), Seq::<ContactEvent>::empty())
            == Seq::<u64>::empty());
        assert(jam_pauses_fold(w, s) == Seq::<u64>::empty());
        assert(jam_pauses_fold(w, s.push(e)) == opt_seq(jam_event_pause(w, e)) + Seq::<
            u64,
        >::empty());
        assert(opt_seq(jam_event_pause(w, e)) + Seq::<u64>::empty() =~= opt_seq(
            jam_event_pause(w, e),
        ));
        assert(Seq::<u64>::empty() + opt_seq(jam_event_pause(w, e)) =~= opt_seq(
            jam_event_pause(w, e),
        ));
    } else {
        assert(s.push(e)[0] == s[0]);
        assert(s.push(e).drop_first() =~= s.drop_first().push(e));
        lemma_jam_fold_push(jam_event_step(w, s[0]), s.drop_first(), e);
        assert(jam_events_fold(w, s) == jam_events_fold(jam_event_step(w, s[0]), s.drop_first()));
        assert(jam_pauses_fold(w, s.push(e)) == opt_seq(jam_event_pause(w, s[0])) + (
        jam_pauses_fold(jam_event_step(w, s[0]), s.drop_first()) + opt_seq(
            jam_event_pause(jam_events_fold(w, s), e),
        )));
        assert(jam_pauses_fold(w, s) == opt_seq(jam_event_pause(w, s[0])) + jam_pauses_fold(
            jam_event_step(w, s[0]),
            s.drop_first(),
        ));
        assert((opt_seq(jam_event_pause(w, s[0])) + jam_pauses_fold(
            jam_event_step(w, s[0]),
            s.drop_first(),
        )) + opt_seq(jam_event_pause(jam_events_fold(w, s), e)) =~= opt_seq(
            jam_event_pause(w, s[0]),
        ) + (jam_pauses_fold(jam_event_step(w, s[0]), s.drop_first()) + opt_seq(
            jam_event_pause(jam_events_fold(w, s), e),
        )));
    }
}

fn find_woodchip(world: &World, e: u64) -> (r: Option<usize>)
    ensures
        match r {
            Some(j) => j < world@.woodchips.len() && world@.woodchips[j as int].id == e,
            None => !world@.is_woodchip_id(e),
        },
{
    let n = world.woodchips.len();
    let mut i: usize = 0;
    while i < n
        invariant
            n == world@.woodchips.len(),
            i <= n,
            forall|k: int| 0 <= k < i ==> (#[trigger] world@.woodchips[k]).id != e,
        decreases n - i,
    {
        if world.woodchips[i].id == e {
            return Some(i);
        }
        i = i + 1;
    }
    None
}

/// React to one woodchip/chipper collision notification; the returned
/// chipper id, if any, is the one newly jammed, whose child blade
/// animations the caller must pause.
pub fn handle_chip_contact_event(world: &mut World, event: ContactEvent) -> (pause: Option<u64>)
    requires
        old(world)@.wf(),
    ensures
        final(world)@ == jam_event_step(old(world)@, event),
        pause == jam_event_pause(old(world)@, event),
        final(world)@.next_id == old(world)@.next_id,
        final(world)@.wf(),
        old(world)@.paired() ==> final(world)@.paired(),
{
    let (a, b) = match event {
        ContactEvent::Started(a, b) => (a, b),
        ContactEvent::Stopped(_, _) => {
            return None;
        },
    };
    let fa = find_woodchip(world, a);
    let fb = find_woodchip(world, b);
    let len_u64 = world.chippers.len() as u64;
    let (chip_id, c_id, j) = if fa.is_some() && b < len_u64 {
        (a, b, fa.unwrap())
    } else if fb.is_some() && a < len_u64 {
        (b, a, fb.unwrap())
    } else {
        proof {
            assert(woodchip_chipper_pair(world@, a, b) is None);
        }
        return None;
    };
    proof {
        assert(world@.is_woodchip_id(chip_id));
        assert(woodchip_chipper_pair(world@, a, b) == Some((chip_id, c_id)));
        let cj = chip_index_of(world@.woodchips, chip_id);
        assert(0 <= cj < world@.woodchips.len() && world@.woodchips[cj].id == chip_id) by {
            assert(world@.woodchips[j as int].id == chip_id);
        }
        if cj < (j as int) {
            assert(world@.woodchips[cj].id != world@.woodchips[j as int].id);
        } else if (j as int) < cj {
            assert(world@.woodchips[j as int].id != world@.woodchips[cj].id);
        }
        assert(cj == j as int);
    }
    let c_len = world.chippers.len();
    proof {
        assert(c_id < c_len as u64);
    }
    let c_idx = c_id as usize;
    let chipper = world.chippers[c_idx];
    if chipper.is_jammed {
        return None;
    }
    let chip = world.woodchips[j];
    if !matches!(chip.state, WoodchipState::Free) {
        return None;
    }
    proof {
        assert(rot_wf(world@.woodchips[j as int].body));
    }
    let cos = chip.body.rot_cos_mm;
    let a_cos = if cos < 0 {
        0 - cos
    } else {
        cos
    };
    if a_cos < DISCARD_COS_MM {
        world.woodchips.remove(j);
        proof {
            let ws = old(world)@.woodchips;
            ws.remove_ensures(j as int);
            assert forall|x: int, y: int| 0 <= x < y < world@.woodchips.len() implies (
            #[trigger] world@.woodchips[x]).id != (#[trigger] world@.woodchips[y]).id by {
                if y < j as int {
                    assert(world@.woodchips[x] == ws[x] && world@.woodchips[y] == ws[y]);
                } else if x < j as int {
                    assert(world@.woodchips[x] == ws[x] && world@.woodchips[y] == ws[y + 1]);
                } else {
                    assert(world@.woodchips[x] == ws[x + 1] && world@.woodchips[y] == ws[y + 1]);
                }
            }
            assert forall|x: int| 0 <= x < world@.woodchips.len() implies {
                let c = #[trigger] world@.woodchips[x];
                &&& old(world)@.chippers.len() <= c.id < old(world)@.next_id
                &&& (old(world)@.trunk matches Some(t) ==> c.id != t.id)
                &&& rot_wf(c.body)
                &&& (c.state matches WoodchipState::StuckInChipper(c2) ==> c2 < old(
                    world,
                )@.chippers.len() && old(world)@.chippers[c2 as int].is_jammed)
            } by {
                if x < j as int {
                    assert(world@.woodchips[x] == ws[x]);
                } else {
                    assert(world@.woodchips[x] == ws[x + 1]);
                }
            }
            assert forall|c2: int|
                0 <= c2 < world@.chippers.len() && (#[trigger] world@.chippers[c2]).is_jammed
                implies world@.some_chip_stuck_in(c2) by {
                let jw = choose|k: int|
                    0 <= k < ws.len() && (#[trigger] ws[k]).state == WoodchipState::StuckInChipper(
                        c2 as u64,
                    );
                if jw < j as int {
                    assert(world@.woodchips[jw].state == WoodchipState::StuckInChipper(c2 as u64));
                } else {
                    assert(world@.woodchips[jw - 1] == ws[jw]);
                    assert(world@.woodchips[jw - 1].state == WoodchipState::StuckInChipper(
                        c2 as u64,
                    ));
                }
            }
        }
        None
    } else {
        world.woodchips.set(
            j,
            WoodchipEnt {
                state: WoodchipState::StuckInChipper(c_id),
                body: Body { body_type: BodyType::Static, ..chip.body },
                ..chip
            },
        );
        world.chippers.set(c_idx, ChipperEnt { is_jammed: true, ..chipper });
        proof {
            assert forall|c2: int|
                0 <= c2 < world@.chippers.len() && (#[trigger] world@.chippers[c2]).is_jammed
                implies world@.some_chip_stuck_in(c2) by {
                if c2 == c_id as int {
                    assert(world@.woodchips[j as int].state == WoodchipState::StuckInChipper(
                        c2 as u64,
                    ));
                } else {
                    let jw = choose|k: int|
                        0 <= k < old(world)@.woodchips.len() && (#[trigger] old(
                            world,
                        )@.woodchips[k]).state == WoodchipState::StuckInChipper(c2 as u64);
                    assert(world@.woodchips[jw].state == WoodchipState::StuckInChipper(c2 as u64));
                }
            }
        }
        Some(c_id)
    }
}

/// React, in order, to a tick's batch of collision notifications between
/// woodchips and chippers. The returned list holds the chippers newly
/// jammed by the batch, in order; the caller must pause the blade
/// animations of each.
pub fn handle_chip_hitting_chipper(world: &mut World, events: &Vec<ContactEvent>) -> (pauses: Vec<
    u64,
>)
    requires
        old(world)@.wf(),
    ensures
        final(world)@ == jam_events_fold(old(world)@, events@),
        pauses@ == jam_pauses_fold(old(world)@, events@),
        final(world)@.next_id == old(world)@.next_id,
        final(world)@.wf(),
        old(world)@.paired() ==> final(world)@.paired(),
{
    let ghost w0 = world@;
    let mut pauses: Vec<u64> = Vec::new();
    let n = events.len();
    let mut i: usize = 0;
    while i < n
        invariant
            n == events@.len(),
            i <= n,
            world@ == jam_events_fold(w0, events@.take(i as int)),
            pauses@ == jam_pauses_fold(w0, events@.take(i as int)),
            world@.next_id == w0.next_id,
            world@.wf(),
            w0.paired() ==> world@.paired(),
        decreases n - i,
    {
        let e = events[i];
        proof {
            lemma_jam_fold_push(w0, events@.take(i as int), events@[i as int]);
            assert(events@.take(i as int).push(events@[i as int]) =~= events@.take(i as int + 1));
        }
        let ghost pauses_before = pauses@;
        match handle_chip_contact_event(world, e) {
            None => {
                proof {
                    assert(pauses@ =~= pauses_before + opt_seq(None));
                }
            },
            Some(c) => {
                pauses.push(c);
                proof {
                    assert(pauses@ =~= pauses_before + opt_seq(Some(c)));
                }
            },
        }
        i = i + 1;
    }
    proof {
        assert(events@.take(n as int) =~= events@);
    }
    pauses
}

} // verus!
