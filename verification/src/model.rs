//! What the profile site sends.

pub mod player_stat;
