use std::collections::HashMap;
use vstd::prelude::*;
use crate::ammo::{
    active_slot_spec, displayed_ammo, displayed_ammo_spec, next_max_clip, ClipTracker, ReserveAmmo,
};
use crate::handles::{HandleResolver, OUTER_NULL};
use crate::text::{after_last, before_first, split_after_last, split_before_first, str_equals};

verus! {

/// A position as the bit patterns of three single-precision coordinates.
/// The bits are carried through unchanged; no arithmetic is done on them.
#[derive(Clone, Copy, PartialEq, Eq, Debug)]
pub struct RawVector {
    pub x: u32,
    pub y: u32,
    pub z: u32,
}

/// The entity properties that the reconstruction reads.
#[derive(Clone, Copy, PartialEq, Eq, Debug)]
pub enum PropKind {
    /// Charge level that a player's entry of the charge table reports.
    ChargeLevel(u32),
    ActiveWeapon,
    /// Reserve ammunition of the first tracked slot.
    Ammo1,
    /// Reserve ammunition of the second tracked slot.
    Ammo2,
    Health,
    /// Handle of the container that owns the entity.
    OuterContainer,
    Clip,
    ModelIndex,
    /// Weapon handle held in the first tracked slot.
    Weapon1,
    /// Weapon handle held in the second tracked slot.
    Weapon2,
    EyeAngleX,
    EyeAngleY,
    EyePosX,
    EyePosY,
    EyePosZ,
    Other,
}

/// A property value: an integer, or a float as its bit pattern.
#[derive(Clone, Copy, PartialEq, Eq, Debug)]
pub enum PropValue {
    Integer(i64),
    Float(u32),
}

#[derive(Clone, Copy, PartialEq, Eq, Debug)]
pub struct PropUpdate {
    pub kind: PropKind,
    pub value: PropValue,
}

/// The game events that the reconstruction reads.
#[derive(Clone, Copy, PartialEq, Eq, Debug)]
pub enum GameEvent {
    PlayerSpawn { user_id: u16 },
    PlayerHurt { attacker: u16, damage: u16 },
    Other,
}

/// One reconstructed tick of the tracked player.
pub struct TickData {
    pub tick: u32,
    pub ammo: u16,
    pub max_ammo: u16,
    pub health: u16,
    pub uber: Option<u8>,
    pub pitch: Option<u32>,
    pub yaw: Option<u32>,
    pub hit: Option<u32>,
    pub weapon: String,
    pub position: RawVector,
}

pub struct TickView {
    pub tick: u32,
    pub ammo: u16,
    pub max_ammo: u16,
    pub health: u16,
    pub uber: Option<u8>,
    pub pitch: Option<u32>,
    pub yaw: Option<u32>,
    pub hit: Option<u32>,
    pub weapon: Seq<char>,
    pub position: RawVector,
}

impl View for TickData {
    type V = TickView;

    open spec fn view(&self) -> TickView {
        TickView {
            tick: self.tick,
            ammo: self.ammo,
            max_ammo: self.max_ammo,
            health: self.health,
            uber: self.uber,
            pitch: self.pitch,
            yaw: self.yaw,
            hit: self.hit,
            weapon: self.weapon@,
            position: self.position,
        }
    }
}

/// Counts of the ticks that were left out, by reason.
#[derive(Clone, Copy, PartialEq, Eq, Debug)]
pub struct Errors {
    pub no_weapon_set: u32,
    pub weapon_not_found: u32,
    pub clip_not_found: u32,
}

impl Errors {
    pub open spec fn total(&self) -> nat {
        self.no_weapon_set as nat + self.weapon_not_found as nat + self.clip_not_found as nat
    }
}

/// Everything the reconstruction knows at a point of the scan.
pub struct AnalyserView {
    pub tick: u32,
    pub last_tick: u32,
    pub output: Seq<TickView>,
    pub clips: Map<u32, u16>,
    pub max_clips: Map<u32, u16>,
    pub classes: Map<u32, u16>,
    pub links: Map<i64, u32>,
    pub ammo: Seq<u16>,
    pub max_ammo: Seq<u16>,
    pub loadout: Seq<i64>,
    pub health: u16,
    pub local_player_id: u32,
    pub local_user_id: u16,
    pub model_names: Seq<Seq<char>>,
    pub model_indexes: Map<u32, u32>,
    pub active_weapon: i64,
    pub uber: u8,
    pub has_uber: bool,
    pub errors: Errors,
    pub hit: Option<u32>,
    pub pov: u32,
    pub pitch: Option<u32>,
    pub yaw: Option<u32>,
    pub angle_ticks: Seq<u32>,
    pub position: RawVector,
}

/// Reconstructs the tracked player's state tick by tick.
pub struct AmmoCountAnalyser {
    tick: u32,
    last_tick: u32,
    output: Vec<TickData>,
    clips: ClipTracker,
    handles: HandleResolver,
    reserve: ReserveAmmo,
    current_health: u16,
    local_player_id: u32,
    local_user_id: u16,
    model_names: Vec<String>,
    model_indexes: HashMap<u32, u32>,
    active_weapon: i64,
    uber: u8,
    has_uber: bool,
    errors: Errors,
    hit: Option<u32>,
    pov: u32,
    pitch: Option<u32>,
    yaw: Option<u32>,
    angle_ticks: [u32; 2],
    position: RawVector,
}

impl View for AmmoCountAnalyser {
    type V = AnalyserView;

    closed spec fn view(&self) -> AnalyserView {
        AnalyserView {
            tick: self.tick,
            last_tick: self.last_tick,
            output: self.output@.map_values(|t: TickData| t@),
            clips: self.clips.clips(),
            max_clips: self.clips.max_clips(),
            classes: self.clips.classes(),
            links: self.handles@,
            ammo: self.reserve.ammo@,
            max_ammo: self.reserve.max_ammo@,
            loadout: self.reserve.loadout@,
            health: self.current_health,
            local_player_id: self.local_player_id,
            local_user_id: self.local_user_id,
            model_names: self.model_names@.map_values(|s: String| s@),
            model_indexes: self.model_indexes@,
            active_weapon: self.active_weapon,
            uber: self.uber,
            has_uber: self.has_uber,
            errors: self.errors,
            hit: self.hit,
            pov: self.pov,
            pitch: self.pitch,
            yaw: self.yaw,
            angle_ticks: self.angle_ticks@,
            position: self.position,
        }
    }
}

/// Snapshots are in strictly increasing tick order.
pub open spec fn ticks_increasing(output: Seq<TickView>) -> bool {
    forall|i: int, j: int| 0 <= i < j < output.len() ==> output[i].tick < output[j].tick
}

impl AnalyserView {
    /// The state invariant of the reconstruction.
    pub open spec fn wf(&self) -> bool {
        &&& self.clips.dom() == self.max_clips.dom()
        &&& !self.links.contains_key(OUTER_NULL)
        &&& self.ammo.len() == 2
        &&& self.max_ammo.len() == 2
        &&& self.loadout.len() == 2
        &&& self.angle_ticks.len() == 2
        &&& ticks_increasing(self.output)
        &&& forall|i: int| 0 <= i < self.output.len() ==> self.output[i].tick <= self.last_tick
        &&& self.errors.total() + self.output.len() <= self.last_tick
    }

    /// Whether the recording was made from the tracked player's view.
    pub open spec fn is_pov(&self) -> bool {
        self.pov == self.local_player_id
    }
}

/// The state before any input.
pub open spec fn initial_view(local_player_id: u32, local_user_id: u16) -> AnalyserView {
    AnalyserView {
        tick: 0,
        last_tick: 0,
        output: Seq::empty(),
        clips: Map::empty(),
        max_clips: Map::empty(),
        classes: Map::empty(),
        links: Map::empty(),
        ammo: seq![0u16, 0u16],
        max_ammo: seq![0u16, 0u16],
        loadout: seq![0i64, 0i64],
        health: 0,
        local_player_id,
        local_user_id,
        model_names: Seq::empty(),
        model_indexes: Map::empty(),
        active_weapon: 0,
        uber: 0,
        has_uber: false,
        errors: Errors { no_weapon_set: 0, weapon_not_found: 0, clip_not_found: 0 },
        hit: None,
        pov: 0,
        pitch: None,
        yaw: None,
        angle_ticks: seq![0u32, 0u32],
        position: RawVector { x: 0, y: 0, z: 0 },
    }
}

/// Display name of a model path: the file name after the last `/`, up to its
/// first `.`; empty where either separator is missing.
pub open spec fn model_stem(path: Seq<char>) -> Seq<char> {
    match after_last(path, '/') {
        Some(file) => match before_first(file, '.') {
            Some(stem) => stem,
            None => Seq::empty(),
        },
        None => Seq::empty(),
    }
}

/// `names` with entry `index` set to `name`, padded with empty names where
/// `index` lies past the end.
pub open spec fn set_name(names: Seq<Seq<char>>, index: int, name: Seq<char>) -> Seq<Seq<char>> {
    if index < names.len() {
        names.update(index, name)
    } else {
        (names + Seq::new((index - names.len()) as nat, |k: int| Seq::<char>::empty())).push(name)
    }
}


/// Effect of one property update on `entity`, of class `class`, at `tick`.
/// Integer updates that carry the null handle are ignored; view angles and
/// position are read from the player's own properties only when the
/// recording was not made from that player's view, and an angle update older
/// than the last one accepted for its axis is ignored.
pub open spec fn apply_prop_spec(
    v: AnalyserView,
    tick: u32,
    entity: u32,
    class: u16,
    p: PropUpdate,
) -> AnalyserView {
    let local = entity == v.local_player_id;
    match p.value {
        PropValue::Integer(value) => {
            if value == OUTER_NULL {
                v
            } else {
                match p.kind {
                    PropKind::ChargeLevel(player) => if player == v.local_player_id {
                        AnalyserView { has_uber: v.has_uber || value > 0, uber: value as u8, ..v }
                    } else {
                        v
                    },
                    PropKind::ActiveWeapon => if local {
                        AnalyserView { active_weapon: value, ..v }
                    } else {
                        v
                    },
                    PropKind::Ammo1 => if local {
                        reserve_spec(v, 0, value as u16)
                    } else {
                        v
                    },
                    PropKind::Ammo2 => if local {
                        reserve_spec(v, 1, value as u16)
                    } else {
                        v
                    },
                    PropKind::Health => if local {
                        AnalyserView { health: value as u16, ..v }
                    } else {
                        v
                    },
                    PropKind::OuterContainer => AnalyserView { links: v.links.insert(value, entity), ..v },
                    PropKind::Clip => AnalyserView {
                        clips: v.clips.insert(entity, value as u16),
                        max_clips: v.max_clips.insert(
                            entity,
                            next_max_clip(v.max_clips, v.classes, entity, class, value as u16),
                        ),
                        ..v
                    },
                    PropKind::ModelIndex => AnalyserView {
                        model_indexes: v.model_indexes.insert(entity, value as u32),
                        ..v
                    },
                    PropKind::Weapon1 => if local {
                        loadout_spec(v, 0, value)
                    } else {
                        v
                    },
                    PropKind::Weapon2 => if local {
                        loadout_spec(v, 1, value)
                    } else {
                        v
                    },
                    _ => v,
                }
            }
        },
        PropValue::Float(bits) => {
            if !v.is_pov() && local {
                match p.kind {
                    PropKind::EyeAngleX => if tick >= v.angle_ticks[0] {
                        AnalyserView { pitch: Some(bits), angle_ticks: v.angle_ticks.update(0, tick), ..v }
                    } else {
                        v
                    },
                    PropKind::EyeAngleY => if tick >= v.angle_ticks[1] {
                        AnalyserView { yaw: Some(bits), angle_ticks: v.angle_ticks.update(1, tick), ..v }
                    } else {
                        v
                    },
                    PropKind::EyePosX => AnalyserView { position: RawVector { x: bits, ..v.position }, ..v },
                    PropKind::EyePosY => AnalyserView { position: RawVector { y: bits, ..v.position }, ..v },
                    PropKind::EyePosZ => AnalyserView { position: RawVector { z: bits, ..v.position }, ..v },
                    _ => v,
                }
            } else {
                v
            }
        },
    }
}

/// A reserve value for `slot`: the slot's maximum grows to cover it.
pub open spec fn reserve_spec(v: AnalyserView, slot: int, value: u16) -> AnalyserView {
    AnalyserView {
        ammo: v.ammo.update(slot, value),
        max_ammo: v.max_ammo.update(slot, if v.max_ammo[slot] > value { v.max_ammo[slot] } else { value }),
        ..v
    }
}

/// A weapon handle for `slot`: a different weapon resets the slot's counts.
pub open spec fn loadout_spec(v: AnalyserView, slot: int, weapon: i64) -> AnalyserView {
    if v.loadout[slot] == weapon {
        v
    } else {
        AnalyserView {
            ammo: v.ammo.update(slot, 0),
            max_ammo: v.max_ammo.update(slot, 0),
            loadout: v.loadout.update(slot, weapon),
            ..v
        }
    }
}

/// Effect of a sequence of property updates, in order.
pub open spec fn apply_props_spec(
    v: AnalyserView,
    tick: u32,
    entity: u32,
    class: u16,
    props: Seq<PropUpdate>,
) -> AnalyserView
    decreases props.len(),
{
    if props.len() == 0 {
        v
    } else {
        apply_prop_spec(apply_props_spec(v, tick, entity, class, props.drop_last()), tick, entity, class, props.last())
    }
}

/// The snapshot of the current tick, for the active weapon `w`.
pub open spec fn snapshot_spec(v: AnalyserView, w: u32) -> TickView {
    let index = if v.model_indexes.contains_key(w) { v.model_indexes[w] } else { 0u32 };
    let weapon = if (index as int) < v.model_names.len() { v.model_names[index as int] } else { Seq::<char>::empty() };
    let slot = active_slot_spec(v.loadout, v.active_weapon) as int;
    let shown = displayed_ammo_spec(v.clips[w], v.max_clips[w], v.ammo[slot], v.max_ammo[slot], weapon);
    TickView {
        tick: v.tick,
        ammo: shown.0,
        max_ammo: shown.1,
        health: v.health,
        uber: if v.has_uber { Some(v.uber) } else { None },
        pitch: v.pitch,
        yaw: v.yaw,
        hit: v.hit,
        weapon,
        position: v.position,
    }
}

/// Completing a tick: once the tick has moved past the last one completed,
/// emit a snapshot when the active weapon and its clip are known, or count
/// why not.
pub open spec fn finish_tick_spec(v: AnalyserView) -> AnalyserView {
    if v.tick > v.last_tick {
        let after = if v.links.contains_key(v.active_weapon) {
            let w = v.links[v.active_weapon];
            if v.clips.contains_key(w) {
                AnalyserView { output: v.output.push(snapshot_spec(v, w)), hit: None, pitch: None, yaw: None, ..v }
            } else {
                AnalyserView { errors: Errors { clip_not_found: (v.errors.clip_not_found + 1) as u32, ..v.errors }, ..v }
            }
        } else if v.active_weapon > 0 {
            AnalyserView { errors: Errors { weapon_not_found: (v.errors.weapon_not_found + 1) as u32, ..v.errors }, ..v }
        } else {
            AnalyserView { errors: Errors { no_weapon_set: (v.errors.no_weapon_set + 1) as u32, ..v.errors }, ..v }
        };
        AnalyserView { last_tick: v.tick, ..after }
    } else {
        v
    }
}

/// Effect of a game event.
pub open spec fn event_spec(v: AnalyserView, e: GameEvent) -> AnalyserView {
    match e {
        GameEvent::PlayerSpawn { user_id } => if user_id == v.local_user_id {
            AnalyserView { clips: v.max_clips, ..v }
        } else {
            v
        },
        GameEvent::PlayerHurt { attacker, damage } => if attacker == v.local_user_id {
            AnalyserView { hit: Some(damage as u32), ..v }
        } else {
            v
        },
        GameEvent::Other => v,
    }
}


/// An entity's clip maximum never shrinks under a property update, except
/// on a clip observation of that entity with a class other than the one last
/// recorded for it, where it becomes the observed value.
pub proof fn lemma_max_clip_monotone(
    v: AnalyserView,
    tick: u32,
    entity: u32,
    class: u16,
    p: PropUpdate,
    e: u32,
)
    requires
        v.max_clips.contains_key(e),
    ensures
        ({
            let w = apply_prop_spec(v, tick, entity, class, p);
            &&& w.max_clips.contains_key(e)
            &&& if e == entity && p.kind == PropKind::Clip && v.classes.contains_key(e) && v.classes[e]
                != class && p.value is Integer && p.value->Integer_0 != OUTER_NULL {
                w.max_clips[e] == p.value->Integer_0 as u16
            } else {
                w.max_clips[e] >= v.max_clips[e]
            }
        }),
{
}

/// Game events leave the clip maxima as they are.
pub proof fn lemma_events_keep_max_clip(v: AnalyserView, e: GameEvent)
    ensures
        event_spec(v, e).max_clips == v.max_clips,
{
}

/// Completing a tick keeps the snapshots in strictly increasing tick order
/// and appends at most one, at the current tick.
pub proof fn lemma_finish_tick_ordered(v: AnalyserView)
    requires
        v.wf(),
    ensures
        finish_tick_spec(v).wf(),
        finish_tick_spec(v).output.len() <= v.output.len() + 1,
        finish_tick_spec(v).output.subrange(0, v.output.len() as int) == v.output,
        finish_tick_spec(v).output.len() > v.output.len() ==> finish_tick_spec(v).output.last().tick == v.tick
            && v.tick > v.last_tick,
{
    let w = finish_tick_spec(v);
    if v.tick > v.last_tick && w.output.len() > v.output.len() {
        assert(w.output.subrange(0, v.output.len() as int) =~= v.output);
    } else {
        assert(w.output.subrange(0, v.output.len() as int) =~= v.output);
    }
}

impl AmmoCountAnalyser {
    /// A reconstruction of the player that is entity `local_player_id` and
    /// user `local_user_id`.
    pub fn new(local_player_id: u32, local_user_id: u16) -> (r: AmmoCountAnalyser)
        ensures
            r@ == initial_view(local_player_id, local_user_id),
            r.inv(),
    {
        let r = AmmoCountAnalyser {
            tick: 0,
            last_tick: 0,
            output: Vec::new(),
            clips: ClipTracker::new(),
            handles: HandleResolver::new(),
            reserve: ReserveAmmo::new(),
            current_health: 0,
            local_player_id,
            local_user_id,
            model_names: Vec::new(),
            model_indexes: HashMap::new(),
            active_weapon: 0,
            uber: 0,
            has_uber: false,
            errors: Errors { no_weapon_set: 0, weapon_not_found: 0, clip_not_found: 0 },
            hit: None,
            pov: 0,
            pitch: None,
            yaw: None,
            angle_ticks: [0, 0],
            position: RawVector { x: 0, y: 0, z: 0 },
        };
        assert(r@.output =~= Seq::<TickView>::empty());
        assert(r@.model_names =~= Seq::<Seq<char>>::empty());
        r
    }

    pub open spec fn inv(&self) -> bool {
        &&& self@.wf()
        &&& self.inner_wf()
    }

    pub closed spec fn inner_wf(&self) -> bool {
        &&& self.clips.wf()
        &&& self.handles.wf()
    }

    /// The recording was made from player slot `player_slot`, which is
    /// entity `player_slot + 1`.
    pub fn set_pov(&mut self, player_slot: u8)
        requires
            old(self).inv(),
        ensures
            final(self).inv(),
            final(self)@ == (AnalyserView { pov: (player_slot + 1) as u32, ..old(self)@ }),
    {
        self.pov = player_slot as u32 + 1;
    }

    /// Whether the recording was made from the tracked player's view.
    pub fn is_pov(&self) -> (r: bool)
        ensures
            r == self@.is_pov(),
    {
        self.pov == self.local_player_id
    }

    /// A spawn of the tracked player refills every clip; a hit that the
    /// tracked player dealt is remembered for the current tick.
    pub fn handle_event(&mut self, event: &GameEvent)
        requires
            old(self).inv(),
        ensures
            final(self).inv(),
            final(self)@ == event_spec(old(self)@, *event),
    {
        match event {
            GameEvent::PlayerSpawn { user_id } => {
                if *user_id == self.local_user_id {
                    self.clips.refill();
                }
            },
            GameEvent::PlayerHurt { attacker, damage } => {
                if *attacker == self.local_user_id {
                    self.hit = Some(*damage as u32);
                }
            },
            GameEvent::Other => {},
        }
    }

    /// Packet metadata of `tick`: when the recording was made from the
    /// tracked player's view, it gives the view angles and position.
    pub fn handle_packet_meta(&mut self, tick: u32, pitch: u32, yaw: u32, origin: RawVector)
        requires
            old(self).inv(),
        ensures
            final(self).inv(),
            final(self)@ == (if old(self)@.is_pov() {
                AnalyserView { pitch: Some(pitch), yaw: Some(yaw), position: origin, tick, ..old(self)@ }
            } else {
                AnalyserView { tick, ..old(self)@ }
            }),
    {
        if self.is_pov() {
            self.pitch = Some(pitch);
            self.yaw = Some(yaw);
            self.position = origin;
        }
        self.tick = tick;
    }

    /// A string table entry; entries of the model table name the models by
    /// index.
    pub fn handle_string_entry(&mut self, table: &str, index: usize, text: Option<&str>)
        requires
            old(self).inv(),
        ensures
            final(self).inv(),
            final(self)@ == (if table@ == "modelprecache"@ {
                AnalyserView {
                    model_names: set_name(
                        old(self)@.model_names,
                        index as int,
                        model_stem(
                            match text {
                                Some(t) => t@,
                                None => Seq::<char>::empty(),
                            },
                        ),
                    ),
                    ..old(self)@
                }
            } else {
                old(self)@
            }),
    {
        if str_equals(table, "modelprecache") {
            let path: &str = match text {
                Some(t) => t,
                None => "",
            };
            proof {
                reveal_strlit("");
            }
            let stem: &str = match split_after_last(path, '/') {
                Some(file) => match split_before_first(file, '.') {
                    Some(stem) => stem,
                    None => "",
                },
                None => "",
            };
            let name = stem.to_owned();
            assert(name@ == model_stem(
                match text {
                    Some(t) => t@,
                    None => Seq::<char>::empty(),
                },
            ));
            let ghost names0 = self@.model_names;
            if index < self.model_names.len() {
                self.model_names[index] = name;
                assert(self@.model_names =~= names0.update(index as int, name@));
            } else {
                while self.model_names.len() < index
                    invariant
                        names0.len() <= self.model_names@.len() <= index,
                        self@.model_names =~= names0 + Seq::new(
                            (self.model_names@.len() - names0.len()) as nat,
                            |k: int| Seq::<char>::empty(),
                        ),
                        self.inv(),
                        self@.output == old(self)@.output,
                        self@ == (AnalyserView { model_names: self@.model_names, ..old(self)@ }),
                    decreases index - self.model_names@.len(),
                {
                    let ghost before = self@.model_names;
                    self.model_names.push(String::new());
                    assert(self@.model_names =~= before.push(Seq::<char>::empty()));
                }
                self.model_names.push(name);
            }
            assert(self@.model_names =~= set_name(names0, index as int, name@));
            assert(self.inv());
        }
    }

    /// Applies one property update of `entity`, of class `class`, at `tick`.
    pub fn apply_prop(&mut self, tick: u32, entity: u32, class: u16, prop: &PropUpdate)
        requires
            old(self).inv(),
        ensures
            final(self).inv(),
            final(self)@ == apply_prop_spec(old(self)@, tick, entity, class, *prop),
    {
        let local = entity == self.local_player_id;
        match prop.value {
            PropValue::Integer(value) => {
                if value != OUTER_NULL {
                    match prop.kind {
                        PropKind::ChargeLevel(player) => {
                            if player == self.local_player_id {
                                if value > 0 {
                                    self.has_uber = true;
                                }
                                self.uber = value as u8;
                            }
                        },
                        PropKind::ActiveWeapon => {
                            if local {
                                self.active_weapon = value;
                            }
                        },
                        PropKind::Ammo1 => {
                            if local {
                                self.reserve.observe_ammo(0, value as u16);
                            }
                        },
                        PropKind::Ammo2 => {
                            if local {
                                self.reserve.observe_ammo(1, value as u16);
                            }
                        },
                        PropKind::Health => {
                            if local {
                                self.current_health = value as u16;
                            }
                        },
                        PropKind::OuterContainer => {
                            self.handles.record_container_link(value, entity);
                        },
                        PropKind::Clip => {
                            self.clips.observe_clip(entity, class, value as u16);
                        },
                        PropKind::ModelIndex => {
                            self.model_indexes.insert(entity, value as u32);
                        },
                        PropKind::Weapon1 => {
                            if local {
                                self.reserve.observe_weapon(0, value);
                            }
                        },
                        PropKind::Weapon2 => {
                            if local {
                                self.reserve.observe_weapon(1, value);
                            }
                        },
                        _ => {},
                    }
                }
            },
            PropValue::Float(bits) => {
                if !self.is_pov() && local {
                    match prop.kind {
                        PropKind::EyeAngleX => {
                            if tick >= self.angle_ticks[0] {
                                self.pitch = Some(bits);
                                self.angle_ticks[0] = tick;
                            }
                        },
                        PropKind::EyeAngleY => {
                            if tick >= self.angle_ticks[1] {
                                self.yaw = Some(bits);
                                self.angle_ticks[1] = tick;
                            }
                        },
                        PropKind::EyePosX => {
                            self.position.x = bits;
                        },
                        PropKind::EyePosY => {
                            self.position.y = bits;
                        },
                        PropKind::EyePosZ => {
                            self.position.z = bits;
                        },
                        _ => {},
                    }
                }
            },
        }
    }

    /// Completes the current tick if it lies past the last completed one:
    /// emits its snapshot, or counts why it could not.
    pub fn finish_tick(&mut self)
        requires
            old(self).inv(),
        ensures
            final(self).inv(),
            final(self)@ == finish_tick_spec(old(self)@),
    {
        if self.tick > self.last_tick {
            match self.handles.resolve(self.active_weapon) {
                Some(w) => {
                    match self.clips.get(w) {
                        Some((clip, max_clip)) => {
                            let index: u32 = match self.model_indexes.get(&w) {
                                Some(i) => *i,
                                None => 0,
                            };
                            let weapon: String = if (index as usize) < self.model_names.len() {
                                self.model_names[index as usize].clone()
                            } else {
                                String::new()
                            };
                            let slot = self.reserve.active_slot(self.active_weapon);
                            let shown = displayed_ammo(
                                clip,
                                max_clip,
                                self.reserve.ammo[slot],
                                self.reserve.max_ammo[slot],
                                weapon.as_str(),
                            );
                            let snapshot = TickData {
                                tick: self.tick,
                                ammo: shown.0,
                                max_ammo: shown.1,
                                health: self.current_health,
                                uber: if self.has_uber { Some(self.uber) } else { None },
                                pitch: self.pitch,
                                yaw: self.yaw,
                                hit: self.hit,
                                weapon,
                                position: self.position,
                            };
                            let ghost out0 = self@.output;
                            proof {
                                assert(snapshot@ == snapshot_spec(self@, w));
                            }
                            self.output.push(snapshot);
                            assert(self@.output =~= out0.push(snapshot_spec(old(self)@, w)));
                            self.hit = None;
                            self.pitch = None;
                            self.yaw = None;
                        },
                        None => {
                            self.errors.clip_not_found = self.errors.clip_not_found + 1;
                        },
                    }
                },
                None => {
                    if self.active_weapon > 0 {
                        self.errors.weapon_not_found = self.errors.weapon_not_found + 1;
                    } else {
                        self.errors.no_weapon_set = self.errors.no_weapon_set + 1;
                    }
                },
            }
            self.last_tick = self.tick;
        }
    }

    /// All property updates of `entity`, of class `class`, in one packet at
    /// `tick`: applies them in order, records the entity's class, and
    /// completes the current tick if it has moved on.
    pub fn handle_entity(&mut self, tick: u32, entity: u32, class: u16, props: &Vec<PropUpdate>)
        requires
            old(self).inv(),
        ensures
            final(self).inv(),
            final(self)@ == finish_tick_spec(
                AnalyserView {
                    classes: apply_props_spec(old(self)@, tick, entity, class, props@).classes.insert(
                        entity,
                        class,
                    ),
                    ..apply_props_spec(old(self)@, tick, entity, class, props@)
                },
            ),
    {
        let mut i: usize = 0;
        while i < props.len()
            invariant
                i <= props@.len(),
                self.inv(),
                self@ == apply_props_spec(old(self)@, tick, entity, class, props@.subrange(0, i as int)),
            decreases props@.len() - i,
        {
            proof {
                assert(props@.subrange(0, i + 1).drop_last() =~= props@.subrange(0, i as int));
            }
            self.apply_prop(tick, entity, class, &props[i]);
            i = i + 1;
        }
        assert(props@.subrange(0, props@.len() as int) =~= props@);
        self.clips.record_class(entity, class);
        self.finish_tick();
    }

    /// The snapshots emitted so far.
    pub fn output(&self) -> (r: &Vec<TickData>)
        ensures
            r@.map_values(|t: TickData| t@) == self@.output,
    {
        &self.output
    }

    /// The counts of left-out ticks so far.
    pub fn errors(&self) -> (r: Errors)
        ensures
            r == self@.errors,
    {
        self.errors
    }

    /// Ends the scan: the snapshots, in strictly increasing tick order, and the
    /// counts of left-out ticks.
    pub fn into_output(self) -> (r: (Vec<TickData>, Errors))
        requires
            self.inv(),
        ensures
            r.0@.map_values(|t: TickData| t@) == self@.output,
            r.1 == self@.errors,
            ticks_increasing(self@.output),
    {
        (self.output, self.errors)
    }
}

} // verus!
