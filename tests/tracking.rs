use demo_overlay::ammo::{displayed_ammo, max_clip_overwrite, ClipTracker, ReserveAmmo};
use demo_overlay::analyser::{
    AmmoCountAnalyser, GameEvent, PropKind, PropUpdate, PropValue, RawVector,
};
use demo_overlay::handles::{HandleResolver, OUTER_NULL};
use demo_overlay::hit::HitDecay;

fn iprop(kind: PropKind, value: i64) -> PropUpdate {
    PropUpdate { kind, value: PropValue::Integer(value) }
}

#[test]
fn hit_decays_linearly_over_window() {
    let mut decay = HitDecay::new();
    decay.observe_hit(100, 80);
    assert_eq!(decay.current_magnitude(100), 80);
    assert_eq!(decay.current_magnitude(133), 0);
    assert_eq!(decay.magnitude_at(233, 2), 40);
    assert_eq!(decay.current_magnitude(200), 0);
    assert_eq!(decay.current_magnitude(111), 53);
}

#[test]
fn hit_before_any_observation_is_zero() {
    let decay = HitDecay::new();
    assert_eq!(decay.current_magnitude(5), 0);
}

#[test]
fn displayed_ammo_drops_extra_round() {
    assert_eq!(displayed_ammo(13, 13, 0, 0, "c_scattergun"), (12, 12));
    assert_eq!(displayed_ammo(0, 7, 0, 0, "x"), (0, 6));
}

#[test]
fn displayed_ammo_without_clip_uses_reserve() {
    assert_eq!(displayed_ammo(0, 0, 150, 200, "c_flamethrower"), (150, 200));
}

#[test]
fn override_pins_pistol_max() {
    assert_eq!(max_clip_overwrite("c_pep_pistol"), Some(9));
    assert_eq!(max_clip_overwrite("c_pistol"), None);
    assert_eq!(displayed_ammo(26, 26, 0, 0, "c_pep_pistol"), (9, 9));
    assert_eq!(displayed_ammo(4, 26, 0, 0, "c_pep_pistol"), (3, 9));
}

#[test]
fn max_clip_grows_and_resets_on_class_change() {
    let mut t = ClipTracker::new();
    t.observe_clip(7, 1, 5);
    t.record_class(7, 1);
    assert_eq!(t.get(7), Some((5, 5)));
    t.observe_clip(7, 1, 3);
    assert_eq!(t.get(7), Some((3, 5)));
    t.observe_clip(7, 2, 2);
    assert_eq!(t.get(7), Some((2, 2)));
    t.refill();
    assert_eq!(t.get(7), Some((2, 2)));
    assert_eq!(t.get(8), None);
}

#[test]
fn refill_restores_clip_to_max() {
    let mut t = ClipTracker::new();
    t.observe_clip(3, 1, 7);
    t.observe_clip(3, 1, 1);
    t.refill();
    assert_eq!(t.get(3), Some((7, 7)));
}

#[test]
fn reserve_resets_when_weapon_changes() {
    let mut r = ReserveAmmo::new();
    r.observe_weapon(0, 11);
    r.observe_ammo(0, 30);
    r.observe_ammo(0, 20);
    assert_eq!((r.ammo[0], r.max_ammo[0]), (20, 30));
    r.observe_weapon(0, 11);
    assert_eq!((r.ammo[0], r.max_ammo[0]), (20, 30));
    r.observe_weapon(0, 12);
    assert_eq!((r.ammo[0], r.max_ammo[0]), (0, 0));
    assert_eq!(r.active_slot(12), 0);
    assert_eq!(r.active_slot(99), 1);
}

#[test]
fn resolver_last_writer_wins_and_ignores_null() {
    let mut h = HandleResolver::new();
    assert_eq!(h.resolve(5), None);
    h.record_container_link(5, 10);
    h.record_container_link(5, 11);
    h.record_container_link(OUTER_NULL, 12);
    assert_eq!(h.resolve(5), Some(11));
    assert_eq!(h.resolve(OUTER_NULL), None);
}

fn setup() -> AmmoCountAnalyser {
    let mut a = AmmoCountAnalyser::new(1, 42);
    a.set_pov(0);
    a.handle_string_entry("modelprecache", 0, Some("models/empty.mdl"));
    a.handle_string_entry("modelprecache", 2, Some("models/weapons/c_models/c_pep_pistol.mdl"));
    a
}

#[test]
fn analyser_emits_snapshots_in_tick_order() {
    let mut a = setup();
    a.handle_packet_meta(10, 100, 200, RawVector { x: 1, y: 2, z: 3 });
    // the weapon entity declares its owner handle, clip and model
    a.handle_entity(10, 20, 5, &vec![
        iprop(PropKind::OuterContainer, 777),
        iprop(PropKind::Clip, 13),
        iprop(PropKind::ModelIndex, 1),
    ]);
    assert_eq!(a.errors().no_weapon_set, 1);
    a.handle_packet_meta(11, 101, 201, RawVector { x: 1, y: 2, z: 3 });
    a.handle_entity(11, 1, 9, &vec![iprop(PropKind::ActiveWeapon, 777), iprop(PropKind::Health, 125)]);
    a.handle_event(&GameEvent::PlayerHurt { attacker: 42, damage: 60 });
    a.handle_packet_meta(12, 102, 202, RawVector { x: 4, y: 5, z: 6 });
    a.handle_entity(12, 20, 5, &vec![iprop(PropKind::Clip, 12)]);
    a.handle_entity(12, 1, 9, &vec![]);
    let (out, errors) = a.into_output();
    assert_eq!(out.len(), 2);
    assert_eq!(out[0].tick, 11);
    assert_eq!(out[1].tick, 12);
    assert_eq!((out[0].ammo, out[0].max_ammo, out[0].health), (12, 12, 125));
    assert_eq!((out[1].ammo, out[1].max_ammo), (11, 12));
    assert_eq!(out[0].hit, None);
    assert_eq!(out[1].hit, Some(60));
    assert_eq!(out[1].pitch, Some(102));
    assert_eq!(out[1].yaw, Some(202));
    assert_eq!(out[1].position, RawVector { x: 4, y: 5, z: 6 });
    assert_eq!(out[0].weapon, "");
    assert_eq!(errors.no_weapon_set, 1);
    assert_eq!(errors.weapon_not_found, 0);
    assert_eq!(errors.clip_not_found, 0);
}

#[test]
fn analyser_counts_missing_weapon_and_clip() {
    let mut a = setup();
    a.handle_packet_meta(5, 0, 0, RawVector { x: 0, y: 0, z: 0 });
    a.handle_entity(5, 1, 9, &vec![iprop(PropKind::ActiveWeapon, 300)]);
    a.handle_packet_meta(6, 0, 0, RawVector { x: 0, y: 0, z: 0 });
    a.handle_entity(6, 30, 4, &vec![iprop(PropKind::OuterContainer, 300)]);
    let (out, errors) = a.into_output();
    assert!(out.is_empty());
    assert_eq!(errors.weapon_not_found, 1);
    assert_eq!(errors.clip_not_found, 1);
    assert_eq!(errors.no_weapon_set, 0);
}

#[test]
fn analyser_applies_override_by_model_name() {
    let mut a = setup();
    a.handle_packet_meta(3, 0, 0, RawVector { x: 0, y: 0, z: 0 });
    a.handle_entity(3, 20, 5, &vec![
        iprop(PropKind::OuterContainer, 9),
        iprop(PropKind::Clip, 27),
        iprop(PropKind::ModelIndex, 2),
    ]);
    a.handle_entity(3, 1, 9, &vec![iprop(PropKind::ActiveWeapon, 9)]);
    a.handle_packet_meta(4, 0, 0, RawVector { x: 0, y: 0, z: 0 });
    a.handle_entity(4, 1, 9, &vec![]);
    let (out, _) = a.into_output();
    assert_eq!(out.len(), 1);
    assert_eq!(out[0].weapon, "c_pep_pistol");
    assert_eq!((out[0].ammo, out[0].max_ammo), (9, 9));
}

#[test]
fn analyser_spawn_refills_and_charge_appears() {
    let mut a = setup();
    a.handle_packet_meta(1, 0, 0, RawVector { x: 0, y: 0, z: 0 });
    a.handle_entity(1, 20, 5, &vec![iprop(PropKind::OuterContainer, 9), iprop(PropKind::Clip, 7)]);
    a.handle_entity(1, 20, 5, &vec![iprop(PropKind::Clip, 3)]);
    a.handle_entity(1, 1, 9, &vec![iprop(PropKind::ActiveWeapon, 9), iprop(PropKind::ChargeLevel(1), 0)]);
    a.handle_packet_meta(2, 0, 0, RawVector { x: 0, y: 0, z: 0 });
    a.handle_event(&GameEvent::PlayerSpawn { user_id: 42 });
    a.handle_entity(2, 1, 9, &vec![iprop(PropKind::ChargeLevel(1), 40)]);
    let (out, _) = a.into_output();
    assert_eq!(out.len(), 1);
    assert_eq!(out[0].tick, 2);
    assert_eq!((out[0].ammo, out[0].max_ammo), (6, 6));
    assert_eq!(out[0].uber, Some(40));
}

#[test]
fn analyser_reads_angles_of_other_player() {
    let mut a = AmmoCountAnalyser::new(3, 7);
    a.set_pov(0);
    a.handle_packet_meta(1, 0, 0, RawVector { x: 0, y: 0, z: 0 });
    a.handle_entity(1, 20, 5, &vec![iprop(PropKind::OuterContainer, 9), iprop(PropKind::Clip, 4)]);
    a.handle_entity(1, 3, 9, &vec![
        iprop(PropKind::ActiveWeapon, 9),
        PropUpdate { kind: PropKind::EyeAngleY, value: PropValue::Float(55) },
        PropUpdate { kind: PropKind::EyePosZ, value: PropValue::Float(66) },
        iprop(PropKind::Health, OUTER_NULL),
    ]);
    a.handle_packet_meta(2, 0, 0, RawVector { x: 0, y: 0, z: 0 });
    a.handle_entity(2, 3, 9, &vec![]);
    let (out, _) = a.into_output();
    assert_eq!(out.len(), 1);
    assert_eq!(out[0].pitch, None);
    assert_eq!(out[0].yaw, Some(55));
    assert_eq!(out[0].position, RawVector { x: 0, y: 0, z: 66 });
    assert_eq!(out[0].health, 0);
}
