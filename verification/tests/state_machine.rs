use woodchipper::trunks::{
    handle_lost_trunks, handle_trunk_contact_event, handle_trunk_hitting_chipper,
    move_kinematic_trunks, spawn_trunk,
};
use woodchipper::world::{BodyType, ChipperState, ContactEvent, TrunkState, World};

#[test]
fn spawner_creates_one_free_trunk() {
    let mut w = World::new(1);
    assert_eq!(w.trunk_count(), 0);
    spawn_trunk(&mut w);
    assert_eq!(w.trunk_count(), 1);
    let t = w.trunk.unwrap();
    assert_eq!(t.id, 1);
    assert!(matches!(t.state, TrunkState::Free));
    assert!(matches!(t.body.body_type, BodyType::Dynamic));
    assert_eq!(t.body.x_mm, 10_000);
    assert_eq!(t.body.y_mm, 5_000);
    assert_eq!(t.body.vx_mm, -6_000);
    assert_eq!(t.body.vy_mm, 3_000);
    assert_eq!(t.body.angvel_mrad, -500);
    assert_eq!(t.body.inv_mass_denom, 3000);
    assert_eq!(t.body.inv_inertia_denom, 300);
    assert!(t.timer.is_none());
}

#[test]
fn spawner_never_adds_a_second_trunk() {
    let mut w = World::new(1);
    spawn_trunk(&mut w);
    let first = w.trunk.unwrap();
    spawn_trunk(&mut w);
    assert_eq!(w.trunk_count(), 1);
    assert_eq!(w.trunk.unwrap(), first);
}

#[test]
fn collision_start_pairs_trunk_and_chipper() {
    let mut w = World::new(1);
    spawn_trunk(&mut w);
    let t_id = w.trunk.unwrap().id;
    handle_trunk_contact_event(&mut w, ContactEvent::Started(t_id, 0));
    let t = w.trunk.unwrap();
    assert!(matches!(t.state, TrunkState::InChipper(0)));
    assert!(matches!(t.body.body_type, BodyType::KinematicVelocityBased));
    assert!(matches!(w.chippers[0].state, ChipperState::Chipping));
    let tm = t.timer.unwrap();
    assert_eq!(tm.duration_ms, 0);
    assert_eq!(tm.elapsed_ms, 0);
}

#[test]
fn collision_start_matches_pair_in_either_order() {
    let mut w = World::new(1);
    spawn_trunk(&mut w);
    let t_id = w.trunk.unwrap().id;
    handle_trunk_contact_event(&mut w, ContactEvent::Started(0, t_id));
    assert!(matches!(w.trunk.unwrap().state, TrunkState::InChipper(0)));
    assert!(matches!(w.chippers[0].state, ChipperState::Chipping));
}

#[test]
fn no_double_chip_on_busy_chipper() {
    let mut w = World::new(1);
    spawn_trunk(&mut w);
    let t_id = w.trunk.unwrap().id;
    handle_trunk_contact_event(&mut w, ContactEvent::Started(t_id, 0));
    let before_trunk = w.trunk.unwrap();
    let before_chipper = w.chippers[0];
    // A duplicate start at the same, now busy, chipper must change nothing.
    handle_trunk_contact_event(&mut w, ContactEvent::Started(t_id, 0));
    assert_eq!(w.trunk.unwrap(), before_trunk);
    assert_eq!(w.chippers[0], before_chipper);
}

#[test]
fn collision_stop_frees_chipper_and_removes_trunk() {
    let mut w = World::new(1);
    spawn_trunk(&mut w);
    let t_id = w.trunk.unwrap().id;
    let events = vec![
        ContactEvent::Started(t_id, 0),
        ContactEvent::Stopped(t_id, 0),
    ];
    handle_trunk_hitting_chipper(&mut w, &events);
    assert!(w.trunk.is_none());
    assert!(matches!(w.chippers[0].state, ChipperState::Free));
}

#[test]
fn stale_and_unrelated_events_are_skipped() {
    let mut w = World::new(2);
    spawn_trunk(&mut w);
    let t_id = w.trunk.unwrap().id;
    let events = vec![
        ContactEvent::Started(77, 0),      // stale entity: no such trunk
        ContactEvent::Stopped(t_id, 0),    // trunk is Free: ignored
        ContactEvent::Started(t_id, 1),    // valid: chipper 1 takes it
        ContactEvent::Stopped(t_id, 0),    // wrong chipper: ignored
    ];
    handle_trunk_hitting_chipper(&mut w, &events);
    assert!(matches!(w.trunk.unwrap().state, TrunkState::InChipper(1)));
    assert!(matches!(w.chippers[0].state, ChipperState::Free));
    assert!(matches!(w.chippers[1].state, ChipperState::Chipping));
}

#[test]
fn kinematic_trunks_are_fed_downward() {
    let mut w = World::new(1);
    spawn_trunk(&mut w);
    let t_id = w.trunk.unwrap().id;
    // A free (dynamic) trunk keeps its own velocity.
    move_kinematic_trunks(&mut w);
    assert_eq!(w.trunk.unwrap().body.vx_mm, -6_000);
    handle_trunk_contact_event(&mut w, ContactEvent::Started(t_id, 0));
    move_kinematic_trunks(&mut w);
    let b = w.trunk.unwrap().body;
    assert_eq!(b.vx_mm, 0);
    assert_eq!(b.vy_mm, -1_000);
}

#[test]
fn lost_trunk_below_cutoff_is_reaped() {
    let mut w = World::new(1);
    spawn_trunk(&mut w);
    w.set_trunk_transform(0, -9_000, 1000, 0);
    handle_lost_trunks(&mut w);
    assert!(w.trunk.is_none());
}

#[test]
fn trunk_just_above_cutoff_remains() {
    let mut w = World::new(1);
    spawn_trunk(&mut w);
    w.set_trunk_transform(0, -7_900, 1000, 0);
    handle_lost_trunks(&mut w);
    assert_eq!(w.trunk_count(), 1);
}

#[test]
fn chipped_trunk_is_not_reaped() {
    let mut w = World::new(1);
    spawn_trunk(&mut w);
    let t_id = w.trunk.unwrap().id;
    handle_trunk_contact_event(&mut w, ContactEvent::Started(t_id, 0));
    w.set_trunk_transform(0, -9_000, 1000, 0);
    handle_lost_trunks(&mut w);
    assert_eq!(w.trunk_count(), 1);
}
