//! Reconstruction of a tracked player's per-tick state (weapon, ammunition,
//! health, charge, hits, view) from decoded entity updates of a recorded
//! match, and its resampling onto an evenly spaced frame timeline.

pub mod ammo;
pub mod analyser;
pub mod handles;
pub mod hit;
pub mod names;
pub mod playersearch;
pub mod resample;
pub mod text;
