use woodchipper::rng::spawn_woodchips_sampled;
use woodchipper::tick::run_tick;
use woodchipper::trunks::{handle_trunk_contact_event, handle_trunk_hitting_chipper};
use woodchipper::woodchips::{emission_point_exec, spawn_woodchips, trunc_div_i64};
use woodchipper::world::{
    Body, BodyType, ChipperState, Contact, ContactEvent, TrunkState, WoodchipState, World,
};

fn chipping_world() -> (World, u64) {
    let mut w = World::new(1);
    woodchipper::trunks::spawn_trunk(&mut w);
    let t_id = w.trunk.unwrap().id;
    handle_trunk_contact_event(&mut w, ContactEvent::Started(t_id, 0));
    (w, t_id)
}

#[test]
fn first_emission_fires_on_next_tick() {
    let (mut w, _) = chipping_world();
    assert_eq!(w.trunk.unwrap().timer.unwrap().duration_ms, 0);
    spawn_woodchips(&mut w, 16, &vec![], 0, 0, 0, 0);
    assert_eq!(w.woodchips.len(), 1);
    let chip = w.woodchips[0];
    assert_eq!(chip.id, 2);
    assert!(matches!(chip.state, WoodchipState::Free));
    assert!(matches!(chip.body.body_type, BodyType::Dynamic));
    // Upright trunk at (10, 5): the upper end cap is the -X one, slid to
    // height 0.5 without horizontal drift.
    assert_eq!(chip.body.x_mm, 9_000);
    assert_eq!(chip.body.y_mm, 500);
    assert_eq!(chip.body.rot_cos_mm, 1000);
    assert_eq!(chip.body.rot_sin_mm, 0);
    assert_eq!(chip.body.vx_mm, -3_000);
    assert_eq!(chip.body.vy_mm, 5_000);
    assert_eq!(chip.body.angvel_mrad, -5_000);
    assert_eq!(chip.body.inv_mass_denom, 30);
    assert_eq!(chip.body.inv_inertia_denom, 3);
    // The timer restarts with the resampled delay.
    let tm = w.trunk.unwrap().timer.unwrap();
    assert_eq!(tm.duration_ms, 1000);
    assert_eq!(tm.elapsed_ms, 0);
}

#[test]
fn emitted_velocities_cover_documented_ranges() {
    let (mut w, _) = chipping_world();
    spawn_woodchips(&mut w, 16, &vec![], 999, 999, 999, 999);
    let chip = w.woodchips[0];
    assert_eq!(chip.body.vx_mm, -4_998);
    assert!(chip.body.vx_mm >= -5_000 && chip.body.vx_mm <= -3_000);
    assert_eq!(chip.body.vy_mm, 11_993);
    assert!(chip.body.vy_mm >= 5_000 && chip.body.vy_mm < 12_000);
    assert_eq!(chip.body.angvel_mrad, 4_990);
    assert_eq!(w.trunk.unwrap().timer.unwrap().duration_ms, 5_995);
}

#[test]
fn end_to_end_chip_then_release() {
    let mut w = World::new(1);
    woodchipper::trunks::spawn_trunk(&mut w);
    let t_id = w.trunk.unwrap().id;
    handle_trunk_hitting_chipper(&mut w, &vec![ContactEvent::Started(t_id, 0)]);
    let t = w.trunk.unwrap();
    assert!(matches!(t.state, TrunkState::InChipper(0)));
    assert!(matches!(t.body.body_type, BodyType::KinematicVelocityBased));
    assert!(matches!(w.chippers[0].state, ChipperState::Chipping));
    assert_eq!(t.timer.unwrap().duration_ms, 0);
    spawn_woodchips(&mut w, 16, &vec![], 500, 500, 500, 500);
    assert_eq!(w.woodchips.len(), 1);
    handle_trunk_hitting_chipper(&mut w, &vec![ContactEvent::Stopped(t_id, 0)]);
    assert!(w.trunk.is_none());
    assert!(matches!(w.chippers[0].state, ChipperState::Free));
    // The emitted woodchip outlives its trunk.
    assert_eq!(w.woodchips.len(), 1);
}

#[test]
fn timer_accumulates_without_firing() {
    let (mut w, _) = chipping_world();
    spawn_woodchips(&mut w, 16, &vec![], 0, 0, 0, 0);
    // duration is now 1000ms; a 400ms frame only accumulates.
    spawn_woodchips(&mut w, 400, &vec![], 0, 0, 0, 0);
    assert_eq!(w.woodchips.len(), 1);
    let tm = w.trunk.unwrap().timer.unwrap();
    assert_eq!(tm.duration_ms, 1000);
    assert_eq!(tm.elapsed_ms, 400);
}

#[test]
fn expiry_with_contact_emits_again() {
    let (mut w, t_id) = chipping_world();
    spawn_woodchips(&mut w, 16, &vec![], 0, 0, 0, 0);
    let contacts = vec![Contact { collider1: t_id, collider2: 0, has_any_active_contact: true }];
    spawn_woodchips(&mut w, 1000, &contacts, 0, 0, 0, 0);
    assert_eq!(w.woodchips.len(), 2);
    assert_eq!(w.trunk_count(), 1);
}

#[test]
fn expiry_without_contact_removes_trunk() {
    let (mut w, t_id) = chipping_world();
    spawn_woodchips(&mut w, 16, &vec![], 0, 0, 0, 0);
    // An inactive contact does not count as touching the chipper.
    let contacts = vec![Contact { collider1: t_id, collider2: 0, has_any_active_contact: false }];
    spawn_woodchips(&mut w, 1000, &contacts, 0, 0, 0, 0);
    assert!(w.trunk.is_none());
    assert_eq!(w.woodchips.len(), 1);
}

#[test]
fn flat_trunk_skips_emission_but_rearms() {
    let (mut w, _) = chipping_world();
    // Lay the trunk flat: slope (rotation cosine) exactly zero.
    w.set_trunk_transform(10_000, 5_000, 0, 1000);
    spawn_woodchips(&mut w, 16, &vec![], 0, 0, 0, 0);
    assert_eq!(w.woodchips.len(), 0);
    assert_eq!(w.trunk.unwrap().timer.unwrap().duration_ms, 1000);
}

#[test]
fn sampled_delays_stay_in_range_across_trials() {
    for _ in 0..200 {
        let (mut w, _) = chipping_world();
        spawn_woodchips_sampled(&mut w, 16, &vec![]);
        assert_eq!(w.woodchips.len(), 1);
        let d = w.trunk.unwrap().timer.unwrap().duration_ms;
        assert!(1000 <= d && d < 6000);
        let chip = w.woodchips[0];
        assert!(chip.body.vx_mm >= -5_000 && chip.body.vx_mm <= -3_000);
        assert!(chip.body.vy_mm >= 5_000 && chip.body.vy_mm < 12_000);
        assert!(chip.body.angvel_mrad >= -5_000 && chip.body.angvel_mrad < 5_000);
    }
}

#[test]
fn truncating_division_rounds_toward_zero() {
    assert_eq!(trunc_div_i64(7, 2), 3);
    assert_eq!(trunc_div_i64(-7, 2), -3);
    assert_eq!(trunc_div_i64(7, -2), -3);
    assert_eq!(trunc_div_i64(-7, -2), 3);
    assert_eq!(trunc_div_i64(0, 5), 0);
}

#[test]
fn emission_point_slides_tilted_trunk_to_fixed_height() {
    let body = Body {
        body_type: BodyType::Dynamic,
        x_mm: 0,
        y_mm: 0,
        rot_cos_mm: 600,
        rot_sin_mm: 800,
        vx_mm: 0,
        vy_mm: 0,
        angvel_mrad: 0,
        inv_mass_denom: 3000,
        inv_inertia_denom: 300,
    };
    // Upper end cap (600, 800); slide by (0.5 - 0.8)/0.6 along (-0.8, 0.6).
    assert_eq!(emission_point_exec(&body), Some((1000, 500)));
}

#[test]
fn whole_tick_runs_passes_in_order() {
    let mut w = World::new(1);
    // The spawner runs first, so the start event can already name the
    // trunk it creates this tick; the fresh zero-duration timer then
    // emits within the same tick.
    let events = vec![ContactEvent::Started(1, 0)];
    let pauses = run_tick(&mut w, 16, &events, &vec![], 0, 0, 0, 0);
    assert!(pauses.is_empty());
    assert!(matches!(w.trunk.unwrap().state, TrunkState::InChipper(0)));
    assert!(matches!(w.chippers[0].state, ChipperState::Chipping));
    // The kinematic drive ran before the emitter: the trunk is being fed.
    assert_eq!(w.trunk.unwrap().body.vy_mm, -1_000);
    assert_eq!(w.woodchips.len(), 1);
    assert_eq!(w.trunk.unwrap().timer.unwrap().duration_ms, 1000);
}
