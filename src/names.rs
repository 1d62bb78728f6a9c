use vstd::prelude::*;
use crate::text::{
    after_first, after_last, before_first, lower_of, lowercase, parse_u32, parse_u32_spec,
    split_after_first, split_after_last, split_before_first,
};

verus! {

/// Number of ticks covered from the start tick when a recording's name gives
/// only the start.
pub const DEFAULT_SPAN: u32 = 5000;

/// `s` cut by an optional split: the part it gives, or `s` itself.
pub open spec fn or_whole(part: Option<Seq<char>>, s: Seq<char>) -> Seq<char> {
    match part {
        Some(p) => p,
        None => s,
    }
}

/// The player and tick range that a recording's path names: its file name,
/// up to the first `.`, holds the player, a `_`, and the start tick (before
/// any further `_`). Both are lowercased; the range ends `DEFAULT_SPAN` ticks
/// after its start. `None` where there is no `_`, the tick is no `u32`, or the
/// end would not fit.
pub open spec fn args_from_name_spec(path: Seq<char>) -> Option<(Seq<char>, u32, u32)> {
    let file = or_whole(after_last(path, '/'), path);
    let base = or_whole(before_first(file, '.'), file);
    let player = or_whole(before_first(base, '_'), base);
    match after_first(base, '_') {
        Some(rest) => {
            let tick_text = or_whole(before_first(rest, '_'), rest);
            match parse_u32_spec(lower_of(tick_text)) {
                Some(tick) => if tick as int + DEFAULT_SPAN as int <= u32::MAX as int {
                    Some((lower_of(player), tick, (tick + DEFAULT_SPAN) as u32))
                } else {
                    None
                },
                None => None,
            }
        },
        None => None,
    }
}

/// Player, start tick and end tick from a recording's path.
pub fn args_from_name(name: &str) -> (r: Option<(String, u32, u32)>)
    ensures
        match r {
            Some((player, start, end)) => args_from_name_spec(name@) == Some((player@, start, end)),
            None => args_from_name_spec(name@) is None,
        },
{
    let file: &str = match split_after_last(name, '/') {
        Some(f) => f,
        None => name,
    };
    let base: &str = match split_before_first(file, '.') {
        Some(b) => b,
        None => file,
    };
    let player: &str = match split_before_first(base, '_') {
        Some(p) => p,
        None => base,
    };
    let rest: &str = match split_after_first(base, '_') {
        Some(r) => r,
        None => return None,
    };
    let tick_text: &str = match split_before_first(rest, '_') {
        Some(t) => t,
        None => rest,
    };
    let lowered = lowercase(tick_text);
    match parse_u32(lowered.as_str()) {
        Some(tick) => {
            if tick <= u32::MAX - DEFAULT_SPAN {
                Some((lowercase(player), tick, tick + DEFAULT_SPAN))
            } else {
                None
            }
        },
        None => None,
    }
}

} // verus!
