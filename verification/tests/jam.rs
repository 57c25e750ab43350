use woodchipper::trunks::handle_trunk_contact_event;
use woodchipper::woodchips::{handle_chip_contact_event, handle_chip_hitting_chipper, spawn_woodchips};
use woodchipper::world::{BodyType, ContactEvent, WoodchipState, World};

/// A world with one chipper mid-chipping and one free woodchip whose
/// rotation cosine (scaled by 1000) is `cos_mm`; returns the chip's id.
fn world_with_chip(cos_mm: i64, sin_mm: i64) -> (World, u64) {
    let mut w = World::new(1);
    woodchipper::trunks::spawn_trunk(&mut w);
    let t_id = w.trunk.unwrap().id;
    handle_trunk_contact_event(&mut w, ContactEvent::Started(t_id, 0));
    spawn_woodchips(&mut w, 16, &vec![], 0, 0, 0, 0);
    let chip_id = w.woodchips[0].id;
    let (x, y) = (w.woodchips[0].body.x_mm, w.woodchips[0].body.y_mm);
    w.set_woodchip_transform(0, x, y, cos_mm, sin_mm);
    (w, chip_id)
}

#[test]
fn grazing_chip_is_discarded() {
    let (mut w, chip_id) = world_with_chip(400, 917);
    let pause = handle_chip_contact_event(&mut w, ContactEvent::Started(chip_id, 0));
    assert_eq!(pause, None);
    assert_eq!(w.woodchips.len(), 0);
    assert!(!w.chippers[0].is_jammed);
}

#[test]
fn square_chip_jams_the_chipper() {
    let (mut w, chip_id) = world_with_chip(600, 800);
    let pause = handle_chip_contact_event(&mut w, ContactEvent::Started(chip_id, 0));
    assert_eq!(pause, Some(0));
    assert_eq!(w.woodchips.len(), 1);
    let chip = w.woodchips[0];
    assert!(matches!(chip.state, WoodchipState::StuckInChipper(0)));
    assert!(matches!(chip.body.body_type, BodyType::Static));
    assert!(w.chippers[0].is_jammed);
}

#[test]
fn boundary_cosine_jams() {
    // |cos| exactly at the bound is not below it: the chip sticks.
    let (mut w, chip_id) = world_with_chip(500, 866);
    handle_chip_contact_event(&mut w, ContactEvent::Started(chip_id, 0));
    assert!(w.chippers[0].is_jammed);
    assert!(matches!(w.woodchips[0].state, WoodchipState::StuckInChipper(0)));
}

#[test]
fn negative_cosine_counts_by_magnitude() {
    let (mut w, chip_id) = world_with_chip(-600, 800);
    handle_chip_contact_event(&mut w, ContactEvent::Started(chip_id, 0));
    assert!(w.chippers[0].is_jammed);
}

#[test]
fn jam_pair_matches_in_either_order() {
    let (mut w, chip_id) = world_with_chip(600, 800);
    let pause = handle_chip_contact_event(&mut w, ContactEvent::Started(0, chip_id));
    assert_eq!(pause, Some(0));
    assert!(w.chippers[0].is_jammed);
}

#[test]
fn jammed_chipper_ignores_further_chips() {
    let (mut w, chip_id) = world_with_chip(600, 800);
    let t_id = w.trunk.unwrap().id;
    handle_chip_contact_event(&mut w, ContactEvent::Started(chip_id, 0));
    // Emit a second chip (trunk still in contact) and let it hit the
    // jammed chipper: nothing changes, even at a jamming angle.
    let contacts = vec![woodchipper::world::Contact {
        collider1: t_id,
        collider2: 0,
        has_any_active_contact: true,
    }];
    spawn_woodchips(&mut w, 6000, &contacts, 0, 0, 0, 0);
    assert_eq!(w.woodchips.len(), 2);
    let second_id = w.woodchips[1].id;
    let pause = handle_chip_contact_event(&mut w, ContactEvent::Started(second_id, 0));
    assert_eq!(pause, None);
    assert!(matches!(w.woodchips[1].state, WoodchipState::Free));
}

#[test]
fn batch_reports_newly_jammed_chippers_in_order() {
    let (mut w, chip_id) = world_with_chip(600, 800);
    let events = vec![
        ContactEvent::Started(99, 0),      // stale chip id: skipped
        ContactEvent::Started(chip_id, 0), // jams chipper 0
        ContactEvent::Started(chip_id, 0), // chipper now jammed: skipped
    ];
    let pauses = handle_chip_hitting_chipper(&mut w, &events);
    assert_eq!(pauses, vec![0]);
    assert!(w.chippers[0].is_jammed);
}

#[test]
fn stuck_chip_pairs_with_jammed_chipper() {
    // Jam-implies-stuck and stuck-implies-jam, observed end to end.
    let (mut w, chip_id) = world_with_chip(600, 800);
    assert!(!w.chippers[0].is_jammed);
    assert!(matches!(w.woodchips[0].state, WoodchipState::Free));
    handle_chip_contact_event(&mut w, ContactEvent::Started(chip_id, 0));
    let stuck = matches!(w.woodchips[0].state, WoodchipState::StuckInChipper(0));
    assert_eq!(stuck, w.chippers[0].is_jammed);
    assert!(stuck);
}
