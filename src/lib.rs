//! Session engine of a hidden-role party game: the record of one lobby, the
//! rules of each action, who wins, what each player may see, and the
//! version-conditioned write that serialises concurrent actions.

pub mod strmap;
pub mod types;
pub mod rules;
pub mod visibility;
pub mod actions;
pub mod lynch;
pub mod sleep;
pub mod seer;
pub mod bodyguard;
pub mod werewolf;
pub mod draw;
pub mod start;
pub mod join;
pub mod store;
pub mod connection;
