use demo_overlay::analyser::{RawVector, TickData};
use demo_overlay::resample::{angle_keyframes, resample, Axis, Timeline};

fn snap(tick: u32, ammo: u16, hit: Option<u32>, weapon: &str) -> TickData {
    TickData {
        tick,
        ammo,
        max_ammo: 20,
        health: 100 + ammo,
        uber: None,
        pitch: None,
        yaw: None,
        hit,
        weapon: weapon.to_string(),
        position: RawVector { x: 0, y: 0, z: 0 },
    }
}

#[test]
fn resample_frames_stay_within_range() {
    let snaps = vec![snap(990, 1, None, "a"), snap(1010, 2, None, "b"), snap(1050, 3, None, "c"), snap(1200, 4, None, "d")];
    let frames = resample(&snaps, Timeline { start: 1000, end: 1100, frames: 2, ticks: 1 });
    assert_eq!(frames.len(), 181);
    assert_eq!(frames[0].frame, 20);
    assert_eq!(frames[180].frame, 200);
    assert_eq!(frames[0].ammo, 2);
    assert_eq!(frames[79].frame, 99);
    assert_eq!(frames[79].ammo, 2);
    assert_eq!(frames[80].ammo, 3);
    assert_eq!(frames[180].weapon, "c");
}

#[test]
fn resample_at_native_rate_holds_each_snapshot() {
    let snaps = vec![snap(1000, 1, None, "a"), snap(1001, 2, None, "b"), snap(1004, 3, None, "c")];
    let frames = resample(&snaps, Timeline { start: 1000, end: 1005, frames: 1, ticks: 1 });
    assert_eq!(frames.len(), 6);
    for s in &snaps {
        let f = &frames[(s.tick - 1000) as usize];
        assert_eq!(f.frame, (s.tick - 1000) as u64);
        assert_eq!(f.tick, s.tick);
        assert_eq!(f.ammo, s.ammo);
        assert_eq!(f.max_ammo, s.max_ammo);
        assert_eq!(f.health, s.health);
        assert_eq!(f.weapon, s.weapon);
    }
    assert_eq!(frames[3].tick, 1001);
}

#[test]
fn resample_decays_hit_at_frame_time() {
    let snaps = vec![snap(100, 1, Some(80), "a"), snap(120, 1, None, "a")];
    let frames = resample(&snaps, Timeline { start: 100, end: 140, frames: 2, ticks: 1 });
    assert_eq!(frames.len(), 81);
    assert_eq!(frames[0].hit, 80);
    assert_eq!(frames[33].hit, 40);
    assert_eq!(frames[66].hit, 0);
}

#[test]
fn resample_without_snapshots_in_range_is_empty() {
    let snaps = vec![snap(10, 1, None, "a")];
    let frames = resample(&snaps, Timeline { start: 100, end: 140, frames: 9, ticks: 5 });
    assert!(frames.is_empty());
}

#[test]
fn angle_keyframes_skip_unobserved_ticks() {
    let mut a = snap(5, 1, None, "a");
    a.pitch = Some(11);
    let mut b = snap(6, 1, None, "a");
    b.yaw = Some(22);
    let mut c = snap(9, 1, None, "a");
    c.pitch = Some(33);
    c.yaw = Some(44);
    let snaps = vec![a, b, c];
    assert_eq!(angle_keyframes(&snaps, Axis::Pitch), vec![(5, 11), (9, 33)]);
    assert_eq!(angle_keyframes(&snaps, Axis::Yaw), vec![(6, 22), (9, 44)]);
}
