//! Facts about the game data that the server serves.

pub mod skill_system;
pub mod loc_status;
