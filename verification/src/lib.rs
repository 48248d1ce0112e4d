use vstd::prelude::*;

pub mod ai;
pub mod catalogue;
pub mod client;
pub mod combat;
pub mod command;
pub mod csv;
pub mod dossier;
pub mod economy;
pub mod events;
pub mod fingerprint;
pub mod fov;
pub mod frame;
pub mod geometry;
pub mod hash;
pub mod input;
pub mod interact;
pub mod keyed;
pub mod records;
pub mod report;
pub mod schema;
pub mod screens;
pub mod sim;
pub mod state;
pub mod strike;
pub mod strings;
pub mod text;
pub mod validate;
pub mod view;
pub mod viability;
pub mod world;

verus! {

} // verus!
