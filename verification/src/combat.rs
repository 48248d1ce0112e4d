//! Structural combat multipliers, written once.
//!
//! These are the shape of the rules rather than tuning: how much deeper a
//! blow lands in a vulnerability window, what a coup de grace multiplies, and
//! how melee multipliers are expressed. Both the sim that enacts them and the
//! viability estimate that prices them read here.
use vstd::prelude::*;

verus! {

/// Blows land twice as deep in a vulnerability window (natural, bound, or
/// on consecrated ground).
pub const VULNERABILITY_MULTIPLIER: u16 = 2;

/// A coup de grace on a sleeping thing lands with terrible weight.
pub const COUP_MULTIPLIER: u16 = 3;

/// The Killing Blow signature doubles melee damage against an eligible
/// target.
pub const KILLING_BLOW_MULTIPLIER: u16 = 2;

/// Melee multipliers are expressed in halves: an authored numerator over
/// this denominator, so a numerator of 3 is one-and-a-half swings.
pub const MULTIPLIER_HALVES: u16 = 2;

} // verus!
