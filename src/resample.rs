use vstd::prelude::*;
use crate::analyser::{ticks_increasing, TickData, TickView};
use crate::hit::{decayed, HitDecay};

verus! {

/// One output frame: the discrete fields held from the latest snapshot at or
/// before the frame's time, and the hit magnitude decayed to that time.
pub struct FrameRecord {
    pub frame: u64,
    /// Tick of the snapshot the discrete fields come from.
    pub tick: u32,
    pub ammo: u16,
    pub max_ammo: u16,
    pub health: u16,
    pub uber: Option<u8>,
    pub weapon: String,
    pub hit: u32,
}

pub struct FrameView {
    pub frame: u64,
    pub tick: u32,
    pub ammo: u16,
    pub max_ammo: u16,
    pub health: u16,
    pub uber: Option<u8>,
    pub weapon: Seq<char>,
    pub hit: u32,
}

impl View for FrameRecord {
    type V = FrameView;

    open spec fn view(&self) -> FrameView {
        FrameView {
            frame: self.frame,
            tick: self.tick,
            ammo: self.ammo,
            max_ammo: self.max_ammo,
            health: self.health,
            uber: self.uber,
            weapon: self.weapon@,
            hit: self.hit,
        }
    }
}

/// The frame timeline over ticks `[start, end]` at `frames` frames per
/// `ticks` ticks: frame `f` stands at the fractional tick
/// `start + f * ticks / frames`.
pub struct Timeline {
    pub start: u32,
    pub end: u32,
    pub frames: u32,
    pub ticks: u32,
}

impl Timeline {
    pub open spec fn valid(&self) -> bool {
        self.start <= self.end && self.frames > 0 && self.ticks > 0
    }

    /// The last frame whose time does not pass `end`.
    pub open spec fn last_frame(&self) -> nat {
        (((self.end - self.start) as nat) * (self.frames as nat) / (self.ticks as nat)) as nat
    }

    /// Whether a snapshot at `tick` lies in the range and at or before frame `f`.
    pub open spec fn covers(&self, tick: u32, f: nat) -> bool {
        &&& self.start <= tick <= self.end
        &&& ((tick - self.start) as nat) * (self.frames as nat) <= f * (self.ticks as nat)
    }

    /// The numerator of frame `f`'s time over the denominator `frames`.
    pub open spec fn time_num(&self, f: nat) -> nat {
        (self.start as nat) * (self.frames as nat) + f * (self.ticks as nat)
    }
}

/// Index of the latest of the first `n` snapshots that covers frame `f`.
pub open spec fn held(snaps: Seq<TickView>, n: int, tl: Timeline, f: nat) -> Option<int>
    decreases n,
{
    if n <= 0 {
        None
    } else if tl.covers(snaps[n - 1].tick, f) {
        Some(n - 1)
    } else {
        held(snaps, n - 1, tl, f)
    }
}

/// Index of the latest of the first `n` snapshots in the range that carries a hit.
pub open spec fn last_hit(snaps: Seq<TickView>, n: int, tl: Timeline) -> Option<int>
    decreases n,
{
    if n <= 0 {
        None
    } else if tl.start <= snaps[n - 1].tick <= tl.end && snaps[n - 1].hit is Some {
        Some(n - 1)
    } else {
        last_hit(snaps, n - 1, tl)
    }
}

/// Hit magnitude at frame `f`, whose snapshot is `j`.
pub open spec fn frame_hit(snaps: Seq<TickView>, tl: Timeline, j: int, f: nat) -> u32 {
    match last_hit(snaps, j + 1, tl) {
        Some(h) => decayed(
            snaps[h].hit->0 as nat,
            snaps[h].tick as nat,
            tl.time_num(f),
            tl.frames as nat,
        ) as u32,
        None => 0,
    }
}

/// The record of frame `f`, held from snapshot `j`.
pub open spec fn frame_spec(snaps: Seq<TickView>, tl: Timeline, j: int, f: nat) -> FrameView {
    FrameView {
        frame: f as u64,
        tick: snaps[j].tick,
        ammo: snaps[j].ammo,
        max_ammo: snaps[j].max_ammo,
        health: snaps[j].health,
        uber: snaps[j].uber,
        weapon: snaps[j].weapon,
        hit: frame_hit(snaps, tl, j, f),
    }
}


/// The record of frame `f`, if some snapshot in the range lies at or before it.
pub open spec fn record_at(snaps: Seq<TickView>, tl: Timeline, f: nat) -> Option<FrameView> {
    match held(snaps, snaps.len() as int, tl, f) {
        Some(j) => Some(frame_spec(snaps, tl, j, f)),
        None => None,
    }
}

/// Views of a sequence of snapshots.
pub open spec fn tick_views(snaps: Seq<TickData>) -> Seq<TickView> {
    snaps.map_values(|t: TickData| t@)
}

spec fn same_index(a: Option<usize>, b: Option<int>) -> bool {
    match a {
        Some(i) => b == Some(i as int),
        None => b is None,
    }
}

proof fn lemma_held_skip(snaps: Seq<TickView>, n: int, m: int, tl: Timeline, f: nat)
    requires
        0 <= n <= m <= snaps.len(),
        forall|k: int| n <= k < m ==> !tl.covers(#[trigger] snaps[k].tick, f),
    ensures
        held(snaps, m, tl, f) == held(snaps, n, tl, f),
    decreases m - n,
{
    if m > n {
        lemma_held_skip(snaps, n, m - 1, tl, f);
    }
}

proof fn lemma_last_hit_bound(snaps: Seq<TickView>, n: int, tl: Timeline)
    ensures
        match last_hit(snaps, n, tl) {
            Some(h) => 0 <= h < n && snaps[h].hit is Some,
            None => true,
        },
    decreases n,
{
    if n > 0 {
        lemma_last_hit_bound(snaps, n - 1, tl);
    }
}

proof fn lemma_before_start(snaps: Seq<TickView>, n: int, tl: Timeline, f: nat)
    requires
        0 <= n <= snaps.len(),
        forall|k: int| 0 <= k < n ==> #[trigger] snaps[k].tick < tl.start,
    ensures
        held(snaps, n, tl, f) is None,
        last_hit(snaps, n, tl) is None,
    decreases n,
{
    if n > 0 {
        lemma_before_start(snaps, n - 1, tl, f);
    }
}

proof fn lemma_covers_later(tl: Timeline, tick: u32, f: nat, g: nat)
    requires
        tl.covers(tick, f),
        f <= g,
    ensures
        tl.covers(tick, g),
{
    assert(f * (tl.ticks as nat) <= g * (tl.ticks as nat)) by (nonlinear_arith)
        requires f <= g;
}

proof fn lemma_not_covers_larger(tl: Timeline, a: u32, b: u32, f: nat)
    requires
        tl.start <= a,
        a <= b,
        !tl.covers(a, f),
    ensures
        !tl.covers(b, f),
{
    if b <= tl.end {
        assert(((a - tl.start) as nat) * (tl.frames as nat) <= ((b - tl.start) as nat) * (tl.frames as nat))
            by (nonlinear_arith)
            requires a <= b, tl.start <= a;
    }
}

/// Resamples the snapshots onto the frame timeline `tl`. Frames before the
/// first snapshot of the range have no record; from there to the timeline's
/// last frame every frame has one, so the records are the frames
/// `last_frame + 1 - len ..= last_frame`, in order.
pub fn resample(snaps: &Vec<TickData>, tl: Timeline) -> (r: Vec<FrameRecord>)
    requires
        tl.valid(),
        ticks_increasing(tick_views(snaps@)),
    ensures
        r@.len() <= tl.last_frame() + 1,
        forall|k: int|
            0 <= k < r@.len() ==> record_at(
                tick_views(snaps@),
                tl,
                (tl.last_frame() + 1 - r@.len() + k) as nat,
            ) == Some(#[trigger] r@[k]@),
        forall|g: nat| g + r@.len() <= tl.last_frame() ==> record_at(tick_views(snaps@), tl, g) is None,
{
    let ghost sv = tick_views(snaps@);
    let n = snaps.len();
    proof {
        assert((tl.end - tl.start) as nat * (tl.frames as nat) <= 0xffff_ffff * 0xffff_ffff) by (nonlinear_arith)
            requires tl.start <= tl.end, tl.end <= 0xffff_ffffu32, tl.frames <= 0xffff_ffffu32;
    }
    let span: u64 = (tl.end - tl.start) as u64 * tl.frames as u64;
    let last: u64 = span / tl.ticks as u64;
    proof {
        assert(span as nat == ((tl.end - tl.start) as nat) * (tl.frames as nat));
        assert(last as nat == tl.last_frame());
        assert(last <= span) by (nonlinear_arith)
            requires last == span / (tl.ticks as u64), tl.ticks >= 1;
    }
    let mut out: Vec<FrameRecord> = Vec::new();
    let mut p: usize = 0;
    let mut hit_src: Option<usize> = None;
    let mut f: u64 = 0;
    while f <= last
        invariant
            sv == tick_views(snaps@),
            n == sv.len(),
            ticks_increasing(sv),
            tl.valid(),
            last as nat == tl.last_frame(),
            span as nat == ((tl.end - tl.start) as nat) * (tl.frames as nat),
            span <= 0xffff_ffff * 0xffff_ffff,
            last <= span,
            f <= last + 1,
            p <= n,
            forall|k: int| 0 <= k < p ==> (#[trigger] sv[k].tick < tl.start || tl.covers(sv[k].tick, f as nat)),
            same_index(hit_src, last_hit(sv, p as int, tl)),
            out@.len() <= f,
            out@.len() > 0 ==> p > 0 && sv[p - 1].tick >= tl.start,
            forall|k: int|
                0 <= k < out@.len() ==> record_at(sv, tl, (f - out@.len() + k) as nat) == Some(
                    #[trigger] out@[k]@,
                ),
            forall|g: nat| g + out@.len() < f ==> record_at(sv, tl, g) is None,
        decreases last + 1 - f,
    {
        proof {
            assert(f * (tl.ticks as nat) <= span) by (nonlinear_arith)
                requires f <= last, last == span / (tl.ticks as u64), tl.ticks >= 1;
        }
        let fticks: u64 = f * tl.ticks as u64;
        while p < n
            invariant
                sv == tick_views(snaps@),
                n == sv.len(),
                ticks_increasing(sv),
                tl.valid(),
                p <= n,
                fticks as nat == f * (tl.ticks as nat),
                forall|k: int| 0 <= k < p ==> (#[trigger] sv[k].tick < tl.start || tl.covers(sv[k].tick, f as nat)),
                same_index(hit_src, last_hit(sv, p as int, tl)),
                out@.len() > 0 ==> p > 0 && sv[p - 1].tick >= tl.start,
            ensures
                p <= n,
                forall|k: int| 0 <= k < p ==> (#[trigger] sv[k].tick < tl.start || tl.covers(sv[k].tick, f as nat)),
                same_index(hit_src, last_hit(sv, p as int, tl)),
                out@.len() > 0 ==> p > 0 && sv[p - 1].tick >= tl.start,
                p < n ==> !(sv[p as int].tick < tl.start || tl.covers(sv[p as int].tick, f as nat)),
            decreases n - p,
        {
            proof {
                assert(sv[p as int] == snaps@[p as int]@);
            }
            let t = snaps[p].tick;
            let reaches: bool = if t < tl.start {
                true
            } else if t <= tl.end {
                proof {
                    assert((t - tl.start) as nat * (tl.frames as nat) <= 0xffff_ffff * 0xffff_ffff) by (nonlinear_arith)
                        requires tl.start <= t, t <= 0xffff_ffffu32, tl.frames <= 0xffff_ffffu32;
                }
                (t - tl.start) as u64 * tl.frames as u64 <= fticks
            } else {
                false
            };
            if !reaches {
                break;
            }
            if t >= tl.start && snaps[p].hit.is_some() {
                hit_src = Some(p);
            }
            p = p + 1;
        }
        proof {
            // Nothing from `p` on reaches frame `f`.
            assert forall|k: int| p <= k < n implies !tl.covers(#[trigger] sv[k].tick, f as nat) by {
                assert(sv[p as int] == snaps@[p as int]@);
                lemma_not_covers_larger(tl, sv[p as int].tick, sv[k].tick, f as nat);
            }
            lemma_held_skip(sv, p as int, n as int, tl, f as nat);
        }
        let held_now: Option<usize> = if p > 0 && snaps[p - 1].tick >= tl.start {
            Some(p - 1)
        } else {
            None
        };
        proof {
            if p > 0 && sv[p - 1].tick >= tl.start {
                assert(sv[p - 1] == snaps@[p - 1]@);
                assert(held(sv, p as int, tl, f as nat) == Some(p - 1));
            } else {
                assert forall|k: int| 0 <= k < p implies #[trigger] sv[k].tick < tl.start by {
                    if p > 0 {
                        assert(sv[p - 1] == snaps@[p - 1]@);
                        if k < p - 1 {
                            assert(sv[k].tick < sv[p - 1].tick);
                        }
                    }
                }
                lemma_before_start(sv, p as int, tl, f as nat);
            }
        }
        match held_now {
            Some(j) => {
                let hit: u32 = match hit_src {
                    Some(h) => {
                        proof {
                            lemma_last_hit_bound(sv, p as int, tl);
                            assert(sv[h as int] == snaps@[h as int]@);
                        }
                        let amount: u32 = match snaps[h].hit {
                            Some(a) => a,
                            None => 0,
                        };
                        let decay = HitDecay { amount, tick: snaps[h].tick };
                        proof {
                            assert(tl.start as nat * tl.frames as nat + f * (tl.ticks as nat)
                                <= 0xffff_ffff * 0xffff_ffff + span) by (nonlinear_arith)
                                requires tl.start <= 0xffff_ffffu32, tl.frames <= 0xffff_ffffu32,
                                    f * (tl.ticks as nat) <= span;
                            assert(tl.start as nat * tl.frames as nat + f * (tl.ticks as nat)
                                <= tl.end as nat * tl.frames as nat) by (nonlinear_arith)
                                requires f * (tl.ticks as nat) <= span,
                                    span as nat == ((tl.end - tl.start) as nat) * (tl.frames as nat),
                                    tl.start <= tl.end;
                            assert(tl.end as nat * tl.frames as nat <= 0xffff_ffff * 0xffff_ffff) by (nonlinear_arith)
                                requires tl.end <= 0xffff_ffffu32, tl.frames <= 0xffff_ffffu32;
                        }
                        let num: u64 = tl.start as u64 * tl.frames as u64 + fticks;
                        decay.magnitude_at(num, tl.frames as u64)
                    },
                    None => 0,
                };
                let s = &snaps[j];
                let rec = FrameRecord {
                    frame: f,
                    tick: s.tick,
                    ammo: s.ammo,
                    max_ammo: s.max_ammo,
                    health: s.health,
                    uber: s.uber,
                    weapon: s.weapon.clone(),
                    hit,
                };
                proof {
                    assert(sv[j as int] == snaps@[j as int]@);
                    assert(last_hit(sv, j + 1, tl) == last_hit(sv, p as int, tl));
                    assert(rec@ == frame_spec(sv, tl, j as int, f as nat));
                }
                out.push(rec);
            },
            None => {},
        }
        proof {
            assert forall|k: int| 0 <= k < p implies (#[trigger] sv[k].tick < tl.start || tl.covers(
                sv[k].tick,
                (f + 1) as nat,
            )) by {
                if !(sv[k].tick < tl.start) {
                    lemma_covers_later(tl, sv[k].tick, f as nat, (f + 1) as nat);
                }
            }
        }
        f = f + 1;
    }
    out
}

/// Which view angle a keyframe series follows.
#[derive(Clone, Copy, PartialEq, Eq, Debug)]
pub enum Axis {
    Pitch,
    Yaw,
}

pub open spec fn angle_of(t: TickView, axis: Axis) -> Option<u32> {
    match axis {
        Axis::Pitch => t.pitch,
        Axis::Yaw => t.yaw,
    }
}

/// The (tick, angle) keyframes of one axis: the snapshots that observed that
/// angle, in order.
pub open spec fn angle_keys_spec(snaps: Seq<TickView>, axis: Axis) -> Seq<(u32, u32)>
    decreases snaps.len(),
{
    if snaps.len() == 0 {
        Seq::empty()
    } else {
        let rest = angle_keys_spec(snaps.drop_last(), axis);
        match angle_of(snaps.last(), axis) {
            Some(a) => rest.push((snaps.last().tick, a)),
            None => rest,
        }
    }
}

proof fn lemma_angle_keys_ticks(snaps: Seq<TickView>, axis: Axis)
    requires
        ticks_increasing(snaps),
    ensures
        forall|i: int, j: int|
            0 <= i < j < angle_keys_spec(snaps, axis).len() ==> angle_keys_spec(snaps, axis)[i].0
                < angle_keys_spec(snaps, axis)[j].0,
        forall|i: int|
            0 <= i < angle_keys_spec(snaps, axis).len() ==> exists|k: int|
                0 <= k < snaps.len() && #[trigger] angle_keys_spec(snaps, axis)[i].0 == snaps[k].tick,
    decreases snaps.len(),
{
    if snaps.len() > 0 {
        let init = snaps.drop_last();
        assert(ticks_increasing(init));
        lemma_angle_keys_ticks(init, axis);
        let rest = angle_keys_spec(init, axis);
        assert forall|i: int| 0 <= i < rest.len() implies #[trigger] rest[i].0 < snaps.last().tick by {
            let k = choose|k: int| 0 <= k < init.len() && rest[i].0 == init[k].tick;
            assert(snaps[k] == init[k]);
        }
        assert forall|i: int|
            0 <= i < angle_keys_spec(snaps, axis).len() implies exists|k: int|
                0 <= k < snaps.len() && #[trigger] angle_keys_spec(snaps, axis)[i].0 == snaps[k].tick by {
            if i < rest.len() {
                let k = choose|k: int| 0 <= k < init.len() && rest[i].0 == init[k].tick;
                assert(snaps[k] == init[k]);
            } else {
                assert(angle_keys_spec(snaps, axis)[i].0 == snaps[snaps.len() - 1].tick);
            }
        }
    }
}

/// Keyframes of one view angle: the tick and angle of every snapshot that
/// observed it, in increasing tick order.
pub fn angle_keyframes(snaps: &Vec<TickData>, axis: Axis) -> (r: Vec<(u32, u32)>)
    requires
        ticks_increasing(tick_views(snaps@)),
    ensures
        r@ == angle_keys_spec(tick_views(snaps@), axis),
        forall|i: int, j: int| 0 <= i < j < r@.len() ==> r@[i].0 < r@[j].0,
{
    let ghost sv = tick_views(snaps@);
    let mut r: Vec<(u32, u32)> = Vec::new();
    let mut i: usize = 0;
    while i < snaps.len()
        invariant
            sv == tick_views(snaps@),
            i <= snaps@.len(),
            r@ == angle_keys_spec(sv.subrange(0, i as int), axis),
        decreases snaps@.len() - i,
    {
        proof {
            assert(sv.subrange(0, i + 1).drop_last() =~= sv.subrange(0, i as int));
            assert(sv[i as int] == snaps@[i as int]@);
        }
        let angle = match axis {
            Axis::Pitch => snaps[i].pitch,
            Axis::Yaw => snaps[i].yaw,
        };
        match angle {
            Some(a) => r.push((snaps[i].tick, a)),
            None => {},
        }
        i = i + 1;
    }
    proof {
        assert(sv.subrange(0, sv.len() as int) =~= sv);
        lemma_angle_keys_ticks(sv, axis);
    }
    r
}

/// Every frame up to the timeline's last frame stands at a time no later
/// than `end`, and the frame after it lies past `end`.
pub proof fn lemma_frames_within_range(tl: Timeline, f: nat)
    requires
        tl.valid(),
    ensures
        f <= tl.last_frame() ==> tl.time_num(f) <= (tl.end as nat) * (tl.frames as nat),
        f > tl.last_frame() ==> tl.time_num(f) > (tl.end as nat) * (tl.frames as nat),
{
    let span = ((tl.end - tl.start) as nat) * (tl.frames as nat);
    let t = tl.ticks as nat;
    assert(tl.end as nat * (tl.frames as nat) == tl.start as nat * (tl.frames as nat) + span) by (nonlinear_arith)
        requires span == ((tl.end - tl.start) as nat) * (tl.frames as nat), tl.start <= tl.end;
    if f <= tl.last_frame() {
        assert(f * t <= span) by (nonlinear_arith)
            requires f <= span / t, t > 0;
    } else {
        assert(f * t > span) by (nonlinear_arith)
            requires f > span / t, t > 0;
    }
}

/// At a frame rate equal to the tick rate, the frame of each snapshot in the
/// range holds exactly that snapshot's discrete fields.
pub proof fn lemma_native_rate_step_hold(snaps: Seq<TickView>, tl: Timeline, j: int)
    requires
        tl.valid(),
        tl.frames == tl.ticks,
        ticks_increasing(snaps),
        0 <= j < snaps.len(),
        tl.start <= snaps[j].tick <= tl.end,
    ensures
        (snaps[j].tick - tl.start) as nat <= tl.last_frame(),
        record_at(snaps, tl, (snaps[j].tick - tl.start) as nat) == Some(
            frame_spec(snaps, tl, j, (snaps[j].tick - tl.start) as nat),
        ),
        ({
            let r = frame_spec(snaps, tl, j, (snaps[j].tick - tl.start) as nat);
            &&& r.tick == snaps[j].tick
            &&& r.ammo == snaps[j].ammo
            &&& r.max_ammo == snaps[j].max_ammo
            &&& r.health == snaps[j].health
            &&& r.uber == snaps[j].uber
            &&& r.weapon == snaps[j].weapon
        }),
{
    let f = (snaps[j].tick - tl.start) as nat;
    let r = tl.frames as nat;
    assert(((tl.end - tl.start) as nat) * r / r == (tl.end - tl.start) as nat) by (nonlinear_arith)
        requires r > 0;
    assert forall|k: int| j + 1 <= k < snaps.len() implies !tl.covers(#[trigger] snaps[k].tick, f) by {
        assert(snaps[j].tick < snaps[k].tick);
        let d = (snaps[k].tick - tl.start) as nat;
        assert(d * r > f * r) by (nonlinear_arith)
            requires d > f, r > 0;
    }
    lemma_held_skip(snaps, j + 1, snaps.len() as int, tl, f);
}

} // verus!
