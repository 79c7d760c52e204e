//! Core rules of a game-café management panel: session timing and billing minutes,
//! licence tokens, passwords and login lockout, stock keeping, settings and
//! the small web viewer's token store.
use vstd::prelude::*;

pub mod auth;
pub mod billing;
pub mod campaigns;
pub mod clock;
pub mod crypto;
pub mod db;
pub mod finance;
pub mod hex;
pub mod ids;
pub mod inventory;
pub mod license;
pub mod models;
pub mod sessions;
pub mod settings;
pub mod stations;
pub mod sync;
pub mod text;
pub mod web;

verus! {

} // verus!
