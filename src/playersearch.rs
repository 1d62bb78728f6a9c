use std::collections::HashMap;
use vstd::prelude::*;
use crate::text::{ascii_lower, ascii_lowercase, contains, contains_spec};

verus! {

/// What `SteamID::from_str` of steamid-ng makes of a string, as the 64-bit
/// id, or `None` where it refuses the string.
pub uninterp spec fn steam_id_of(s: Seq<char>) -> Option<u64>;

/// Relies on steamid-ng's `FromStr for SteamID`, which accepts the 64-bit,
/// `STEAM_` and bracketed forms and depends on the string alone; the id is
/// taken out with `From<SteamID> for u64`.
#[verifier::external_body]
fn parse_steam_id(s: &str) -> (r: Option<u64>)
    ensures
        r == steam_id_of(s@),
{
    s.parse::<steamid_ng::SteamID>().ok().map(u64::from)
}

/// How the player to track is picked: by a part of their name, or by their
/// Steam id.
pub enum PlayerFilter {
    Name(String),
    SteamId(u64),
}

impl PlayerFilter {
    /// A filter text that reads as a Steam id selects by id; any other text
    /// selects by name.
    pub fn new(filter: String) -> (r: PlayerFilter)
        ensures
            match steam_id_of(filter@) {
                Some(id) => r == PlayerFilter::SteamId(id),
                None => r is Name && r->Name_0@ == filter@,
            },
    {
        match parse_steam_id(filter.as_str()) {
            Some(id) => PlayerFilter::SteamId(id),
            None => PlayerFilter::Name(filter),
        }
    }

    /// Whether a player with `name` and the Steam id text `steam_id` is the
    /// one the filter selects.
    pub open spec fn matches_spec(&self, name: Seq<char>, steam_id: Seq<char>) -> bool {
        match self {
            PlayerFilter::Name(n) => contains_spec(ascii_lower(name), n@),
            PlayerFilter::SteamId(id) => steam_id_of(steam_id) == Some(*id),
        }
    }

    pub fn matches(&self, name: &str, steam_id: &str) -> (r: bool)
        ensures
            r == self.matches_spec(name@, steam_id@),
    {
        match self {
            PlayerFilter::Name(n) => {
                let lowered = ascii_lowercase(name);
                contains(lowered.as_str(), n.as_str())
            },
            PlayerFilter::SteamId(id) => match parse_steam_id(steam_id) {
                Some(other) => other == *id,
                None => false,
            },
        }
    }
}

/// A player seen in the recording's user table.
pub struct UserEntry {
    pub name: String,
    pub entity: u32,
    pub user: u16,
}

/// Finds the entity and user id of the player to track from the recording's
/// server info and user table.
pub struct PlayerSearchHandler {
    filter: Option<PlayerFilter>,
    entity: Option<u32>,
    user: Option<u16>,
    all_users: HashMap<u64, UserEntry>,
}

impl PlayerSearchHandler {
    pub closed spec fn filter(&self) -> Option<PlayerFilter> {
        self.filter
    }

    pub closed spec fn entity(&self) -> Option<u32> {
        self.entity
    }

    pub closed spec fn user(&self) -> Option<u16> {
        self.user
    }

    /// Every user table entry with a readable Steam id, by that id.
    pub closed spec fn users(&self) -> Map<u64, UserEntry> {
        self.all_users@
    }

    /// A search for the player that `user` names, by name or Steam id; with no
    /// `user` the player whose view the recording was made from.
    pub fn new(user: Option<String>) -> (r: PlayerSearchHandler)
        ensures
            match user {
                Some(u) => r.filter() is Some && match steam_id_of(u@) {
                    Some(id) => r.filter() == Some(PlayerFilter::SteamId(id)),
                    None => r.filter()->0 is Name && r.filter()->0->Name_0@ == u@,
                },
                None => r.filter() is None,
            },
            r.entity() is None,
            r.user() is None,
            r.users() == Map::<u64, UserEntry>::empty(),
    {
        let filter = match user {
            Some(u) => Some(PlayerFilter::new(u)),
            None => None,
        };
        PlayerSearchHandler { filter, entity: None, user: None, all_users: HashMap::new() }
    }

    /// The server info names the recording player's slot; without a filter,
    /// that player (entity `player_slot + 1`) is the one to track.
    pub fn handle_server_info(&mut self, player_slot: u8)
        ensures
            final(self).filter() == old(self).filter(),
            final(self).user() == old(self).user(),
            final(self).users() == old(self).users(),
            final(self).entity() == if old(self).filter() is None {
                Some((player_slot + 1) as u32)
            } else {
                old(self).entity()
            },
    {
        if self.filter.is_none() {
            self.entity = Some(player_slot as u32 + 1);
        }
    }

    /// A user table entry: remembered by Steam id where that reads; with a
    /// filter, the first entry it selects is the player to track; without
    /// one, the entry of the tracked entity gives its user id.
    pub fn handle_user_info(&mut self, name: &str, steam_id: &str, entity: u32, user: u16)
        ensures
            final(self).filter() == old(self).filter(),
            match steam_id_of(steam_id@) {
                Some(id) => final(self).users().dom() == old(self).users().dom().insert(id)
                    && final(self).users()[id].name@ == name@
                    && final(self).users()[id].entity == entity
                    && final(self).users()[id].user == user
                    && forall|k: u64| k != id && old(self).users().contains_key(k) ==> final(self).users()[k]
                        == old(self).users()[k],
                None => final(self).users() == old(self).users(),
            },
            match old(self).filter() {
                Some(f) => if f.matches_spec(name@, steam_id@) && old(self).entity() is None {
                    final(self).entity() == Some(entity) && final(self).user() == Some(user)
                } else {
                    final(self).entity() == old(self).entity() && final(self).user() == old(self).user()
                },
                None => final(self).entity() == old(self).entity() && final(self).user() == if old(
                    self,
                ).entity() == Some(entity) {
                    Some(user)
                } else {
                    old(self).user()
                },
            },
    {
        match parse_steam_id(steam_id) {
            Some(id) => {
                self.all_users.insert(id, UserEntry { name: name.to_owned(), entity, user });
            },
            None => {},
        }
        match &self.filter {
            Some(f) => {
                if f.matches(name, steam_id) && self.entity.is_none() {
                    self.entity = Some(entity);
                    self.user = Some(user);
                }
            },
            None => {
                if self.entity == Some(entity) {
                    self.user = Some(user);
                }
            },
        }
    }

    /// The player found from the recording alone.
    pub fn found(&self) -> (r: Option<(u32, u16)>)
        ensures
            r == match (self.entity(), self.user()) {
                (Some(e), Some(u)) => Some((e, u)),
                _ => None::<(u32, u16)>,
            },
    {
        match (self.entity, self.user) {
            (Some(e), Some(u)) => Some((e, u)),
            _ => None,
        }
    }

    /// The name to look up elsewhere: only when nothing was found and the
    /// filter selects by name.
    pub fn search_name(&self) -> (r: Option<String>)
        ensures
            r is Some <==> ((self.entity() is None || self.user() is None) && self.filter() is Some
                && self.filter()->0 is Name),
            r is Some ==> r->0@ == self.filter()->0->Name_0@,
    {
        if self.entity.is_some() && self.user.is_some() {
            return None;
        }
        match &self.filter {
            Some(PlayerFilter::Name(n)) => Some(n.clone()),
            _ => None,
        }
    }

    /// Takes the first of `candidates`, Steam ids from a search by name, that
    /// the user table holds, out of the table: its name, entity and user id.
    pub fn resolve_candidates(&mut self, candidates: &Vec<u64>) -> (r: Option<(String, u32, u16)>)
        ensures
            final(self).filter() == old(self).filter(),
            final(self).entity() == old(self).entity(),
            final(self).user() == old(self).user(),
            match r {
                Some((name, entity, user)) => exists|i: int|
                    0 <= i < candidates@.len() && {
                        let id = #[trigger] candidates@[i];
                        &&& old(self).users().contains_key(id)
                        &&& forall|j: int| 0 <= j < i ==> !old(self).users().contains_key(candidates@[j])
                        &&& name@ == old(self).users()[id].name@
                        &&& entity == old(self).users()[id].entity
                        &&& user == old(self).users()[id].user
                        &&& final(self).users() == old(self).users().remove(id)
                    },
                None => {
                    &&& forall|j: int| 0 <= j < candidates@.len() ==> !old(self).users().contains_key(candidates@[j])
                    &&& final(self).users() == old(self).users()
                },
            },
    {
        let mut i: usize = 0;
        while i < candidates.len()
            invariant
                i <= candidates@.len(),
                self.filter() == old(self).filter(),
                self.entity() == old(self).entity(),
                self.user() == old(self).user(),
                self.users() == old(self).users(),
                forall|j: int| 0 <= j < i ==> !old(self).users().contains_key(candidates@[j]),
            decreases candidates@.len() - i,
        {
            let ghost before = self.users();
            match self.all_users.remove(&candidates[i]) {
                Some(entry) => {
                    assert(0 <= i < candidates@.len() && old(self).users().contains_key(candidates@[i as int]));
                    return Some((entry.name, entry.entity, entry.user));
                },
                None => {
                    assert(self.users() =~= before);
                },
            }
            i = i + 1;
        }
        None
    }
}

} // verus!
