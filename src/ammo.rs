use std::collections::HashMap;
use vstd::prelude::*;
use crate::text::str_equals;

verus! {

/// Clip maximum after observing clip value `value` on `entity` of class
/// `class`: a class that differs from the one last recorded for the entity
/// means a new weapon in that slot, so the maximum starts over at `value`;
/// otherwise the maximum grows to cover `value`.
pub open spec fn next_max_clip(
    maxes: Map<u32, u16>,
    classes: Map<u32, u16>,
    entity: u32,
    class: u16,
    value: u16,
) -> u16 {
    if classes.contains_key(entity) && classes[entity] != class {
        value
    } else if maxes.contains_key(entity) && maxes[entity] > value {
        maxes[entity]
    } else {
        value
    }
}

/// Per-entity clip state: the current clip, the largest clip seen, and the
/// class each entity had at its last update.
pub struct ClipTracker {
    clip: HashMap<u32, u16>,
    max_clip: HashMap<u32, u16>,
    classes: HashMap<u32, u16>,
}

impl ClipTracker {
    pub closed spec fn clips(&self) -> Map<u32, u16> {
        self.clip@
    }

    pub closed spec fn max_clips(&self) -> Map<u32, u16> {
        self.max_clip@
    }

    pub closed spec fn classes(&self) -> Map<u32, u16> {
        self.classes@
    }

    /// Every entity with a clip has a maximum, and only those.
    pub open spec fn wf(&self) -> bool {
        self.clips().dom() == self.max_clips().dom()
    }

    pub fn new() -> (r: ClipTracker)
        ensures
            r.wf(),
            r.clips() == Map::<u32, u16>::empty(),
            r.max_clips() == Map::<u32, u16>::empty(),
            r.classes() == Map::<u32, u16>::empty(),
    {
        ClipTracker { clip: HashMap::new(), max_clip: HashMap::new(), classes: HashMap::new() }
    }

    /// A clip value `value` seen on `entity`, whose class is now `class`.
    pub fn observe_clip(&mut self, entity: u32, class: u16, value: u16)
        requires
            old(self).wf(),
        ensures
            final(self).wf(),
            final(self).clips() == old(self).clips().insert(entity, value),
            final(self).max_clips() == old(self).max_clips().insert(
                entity,
                next_max_clip(old(self).max_clips(), old(self).classes(), entity, class, value),
            ),
            final(self).classes() == old(self).classes(),
            // The maximum never shrinks while the class stays the same.
            !(old(self).classes().contains_key(entity) && old(self).classes()[entity] != class)
                && old(self).max_clips().contains_key(entity) ==> final(self).max_clips()[entity]
                >= old(self).max_clips()[entity],
            final(self).max_clips()[entity] >= value,
    {
        let changed = match self.classes.get(&entity) {
            Some(c) => *c != class,
            None => false,
        };
        let new_max = if changed {
            value
        } else {
            match self.max_clip.get(&entity) {
                Some(m) => if *m > value { *m } else { value },
                None => value,
            }
        };
        self.max_clip.insert(entity, new_max);
        self.clip.insert(entity, value);
    }

    /// Records the class `entity` had at its latest update.
    pub fn record_class(&mut self, entity: u32, class: u16)
        requires
            old(self).wf(),
        ensures
            final(self).wf(),
            final(self).clips() == old(self).clips(),
            final(self).max_clips() == old(self).max_clips(),
            final(self).classes() == old(self).classes().insert(entity, class),
    {
        self.classes.insert(entity, class);
    }

    /// On respawn every clip is refilled to its maximum.
    pub fn refill(&mut self)
        requires
            old(self).wf(),
        ensures
            final(self).wf(),
            final(self).clips() == old(self).max_clips(),
            final(self).max_clips() == old(self).max_clips(),
            final(self).classes() == old(self).classes(),
    {
        self.clip = self.max_clip.clone();
    }

    /// Current clip and clip maximum of `entity`, if it has a clip.
    pub fn get(&self, entity: u32) -> (r: Option<(u16, u16)>)
        requires
            self.wf(),
        ensures
            r == if self.clips().contains_key(entity) {
                Some((self.clips()[entity], self.max_clips()[entity]))
            } else {
                None::<(u16, u16)>
            },
    {
        match self.clip.get(&entity) {
            Some(c) => {
                let m = self.max_clip.get(&entity);
                match m {
                    Some(m) => Some((*c, *m)),
                    None => None,
                }
            },
            None => None,
        }
    }
}

/// Number of weapon slots whose reserve ammunition is tracked.
pub const SLOTS: usize = 2;

/// Reserve ammunition per weapon slot, with the largest value seen since the
/// slot's weapon last changed.
pub struct ReserveAmmo {
    pub ammo: [u16; 2],
    pub max_ammo: [u16; 2],
    pub loadout: [i64; 2],
}

impl ReserveAmmo {
    pub fn new() -> (r: ReserveAmmo)
        ensures
            r.ammo@ == seq![0u16, 0u16],
            r.max_ammo@ == seq![0u16, 0u16],
            r.loadout@ == seq![0i64, 0i64],
    {
        ReserveAmmo { ammo: [0, 0], max_ammo: [0, 0], loadout: [0, 0] }
    }

    /// Reserve value `value` seen for `slot`.
    pub fn observe_ammo(&mut self, slot: usize, value: u16)
        requires
            slot < SLOTS,
        ensures
            final(self).ammo@ == old(self).ammo@.update(slot as int, value),
            final(self).max_ammo@ == old(self).max_ammo@.update(
                slot as int,
                if old(self).max_ammo@[slot as int] > value { old(self).max_ammo@[slot as int] } else { value },
            ),
            final(self).loadout@ == old(self).loadout@,
    {
        self.ammo[slot] = value;
        let m = self.max_ammo[slot];
        self.max_ammo[slot] = if m > value { m } else { value };
    }

    /// The weapon in `slot` is now `weapon`; a different weapon starts the
    /// slot's counts over at zero.
    pub fn observe_weapon(&mut self, slot: usize, weapon: i64)
        requires
            slot < SLOTS,
        ensures
            final(self).loadout@ == old(self).loadout@.update(slot as int, weapon),
            old(self).loadout@[slot as int] == weapon ==> *final(self) == *old(self),
            old(self).loadout@[slot as int] != weapon ==> {
                &&& final(self).ammo@ == old(self).ammo@.update(slot as int, 0)
                &&& final(self).max_ammo@ == old(self).max_ammo@.update(slot as int, 0)
            },
    {
        if self.loadout[slot] != weapon {
            self.ammo[slot] = 0;
            self.max_ammo[slot] = 0;
            self.loadout[slot] = weapon;
        }
        proof {
            assert(self.loadout@ == old(self).loadout@.update(slot as int, weapon));
        }
    }

    /// The slot that holds `weapon`: the first whose weapon matches, or the
    /// last slot when none does.
    pub fn active_slot(&self, weapon: i64) -> (r: usize)
        ensures
            r < SLOTS,
            r == active_slot_spec(self.loadout@, weapon),
    {
        let mut i: usize = 0;
        while i < SLOTS - 1
            invariant
                i <= SLOTS - 1,
                forall|j: int| 0 <= j < i ==> self.loadout@[j] != weapon,
            decreases SLOTS - i,
        {
            if self.loadout[i] == weapon {
                return i;
            }
            i = i + 1;
        }
        SLOTS - 1
    }
}

/// First slot before the last whose weapon is `weapon`, else the last slot.
pub open spec fn active_slot_spec(loadout: Seq<i64>, weapon: i64) -> usize {
    if loadout[0] == weapon { 0 } else { 1 }
}

/// Capacity that a weapon is known to really have when its reported clip
/// capacity is wrong.
pub open spec fn clip_override(weapon: Seq<char>) -> Option<u16> {
    if weapon == "c_pep_pistol"@ {
        Some(9u16)
    } else {
        None
    }
}

/// Looks `weapon` up in the table of clip capacity overrides.
pub fn max_clip_overwrite(weapon: &str) -> (r: Option<u16>)
    ensures
        r == clip_override(weapon@),
{
    if str_equals(weapon, "c_pep_pistol") {
        Some(9)
    } else {
        None
    }
}

/// The (current, maximum) pair shown for a weapon. A weapon with a clip
/// (`max_clip > 0`) shows its clip less the one extra that the raw values
/// carry; one without shows the reserve of its slot. An override replaces the
/// maximum, and the current count never exceeds the maximum shown.
pub open spec fn displayed_ammo_spec(
    clip: u16,
    max_clip: u16,
    reserve: u16,
    max_reserve: u16,
    weapon: Seq<char>,
) -> (u16, u16) {
    let ammo: u16 = if max_clip > 0 { if clip > 0 { (clip - 1) as u16 } else { 0 } } else { reserve };
    let max: u16 = if max_clip > 0 { (max_clip - 1) as u16 } else { max_reserve };
    let max: u16 = match clip_override(weapon) {
        Some(m) => m,
        None => max,
    };
    (if ammo < max { ammo } else { max }, max)
}

pub fn displayed_ammo(clip: u16, max_clip: u16, reserve: u16, max_reserve: u16, weapon: &str) -> (r: (
    u16,
    u16,
))
    ensures
        r == displayed_ammo_spec(clip, max_clip, reserve, max_reserve, weapon@),
        r.0 <= r.1,
        clip_override(weapon@) is Some ==> r.1 == clip_override(weapon@)->0,
{
    let mut ammo: u16 = if max_clip > 0 { clip.saturating_sub(1) } else { reserve };
    let mut max: u16 = if max_clip > 0 { max_clip.saturating_sub(1) } else { max_reserve };
    if let Some(m) = max_clip_overwrite(weapon) {
        max = m;
    }
    if ammo > max {
        ammo = max;
    }
    (ammo, max)
}

/// Whatever clip, reserve and maxima were observed, a weapon with an
/// override shows the override as its maximum and never more than it as its
/// current count.
pub proof fn lemma_override_pins_max(
    clip: u16,
    max_clip: u16,
    reserve: u16,
    max_reserve: u16,
    weapon: Seq<char>,
    cap: u16,
)
    requires
        clip_override(weapon) == Some(cap),
    ensures
        displayed_ammo_spec(clip, max_clip, reserve, max_reserve, weapon).1 == cap,
        displayed_ammo_spec(clip, max_clip, reserve, max_reserve, weapon).0 <= cap,
{
}

/// The one override of the table: `c_pep_pistol` holds nine.
pub proof fn lemma_pep_pistol_override()
    ensures
        clip_override("c_pep_pistol"@) == Some(9u16),
{
}

} // verus!
