//! Shuffling songs for a music player daemon: the lists, rules, the shuffle
//! window and the decisions of the shuffling client.

pub mod args;
pub mod ashuffle;
pub mod cstr;
pub mod list;
pub mod mpd;
pub mod rule;
pub mod shuffle;
