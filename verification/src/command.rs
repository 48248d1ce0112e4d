//! Semantic commands and their rejection reasons.
//!
//! Keyboard, mouse, replay, terminal, and browser inputs all become exactly
//! these commands before the simulation changes state. Commands are the unit
//! of the replay log, so their encoding must stay stable within a replay
//! format version.
use vstd::prelude::*;

use crate::geometry::Direction;
use crate::schema::PoolKind;
use crate::state::ActorId;
use crate::text::{decimal, push_number, push_text};
use crate::world::{FeatureId, NpcId, OpportunityId};

verus! {

#[derive(Debug, Clone, PartialEq, Eq)]
pub enum Command {
    /// Step one tile; bumping a hostile actor melees it instead.
    Move(Direction),
    Wait,
    Melee(Target),
    /// Fire the flintlock. `silver` loads a silver bullet instead of shot.
    Ranged { target: Target, silver: bool },
    /// Generic stamina manoeuvre by content id ("aim", "power-attack", ...).
    /// Dash-style manoeuvres carry the tiles to move, in order.
    Manoeuvre { id: String, steps: Vec<Direction> },
    /// Hunter signature by content id. Set Snare targets a direction;
    /// Killing Blow targets an adjacent actor.
    Signature { id: String, dir: Option<Direction>, target: Option<Target> },
    /// Drink a wound draught (consumes the action).
    UseDraught,
    /// Press a binding charm on an adjacent villain.
    UseBindingCharm { target: Target },
    /// Resolve a discovered opportunity (investigate, gather, social action).
    Interact(OpportunityId),
    /// Free conversation with an adjacent NPC.
    Talk(NpcId),
    /// Buy one flintlock shot from an adjacent trading NPC.
    BuyShot(NpcId),
    /// Use the paired exit under the hunter's feet. Advances the global clock.
    Travel,
    /// Craft a recipe at an adjacent workstation.
    Craft { recipe: String },
    /// Perform the consecration rite at the altar. Advances the global clock.
    Consecrate,
    /// Force open a grave (1 Physical): the informed play or the gamble.
    OpenGrave(FeatureId),
    /// Force adjacent barred terrain (1 Physical): doors and rubble.
    Force(Direction),
    /// Combine two corroborating identity clues. Free action.
    UncoverVillain,
}

#[derive(Debug, Clone, Copy, PartialEq, Eq, Structural)]
pub enum Target {
    /// Hostile actor by stable id.
    Actor(ActorId),
    /// A villager (attacking one has consequences).
    Npc(NpcId),
}

/// Why a command was rejected. Rendered by the UI so blocked actions are
/// explained rather than hidden.
#[derive(Debug, Clone, PartialEq, Eq)]
pub enum Rejection {
    RunOver,
    Blocked { what: String },
    NoSuchTarget,
    OutOfRange,
    NoLineOfSight,
    NotAdjacent,
    NoAmmo { item: String },
    PoolEmpty { pool: PoolKind, needed: u8 },
    StaminaShort { needed: u8 },
    NotDiscovered,
    AlreadyResolved,
    NpcUnavailable,
    NpcWillNotTalk,
    NotEnoughCoin { needed: u16 },
    NotAtExit,
    TravelBlockedByFinalHunt,
    NotAtWorkstation,
    MissingIngredients { recipe: String },
    NotAtAltar,
    AlreadyConsecrated,
    NotAtGrave,
    GraveAlreadyOpened,
    NothingToForce,
    NeedMoreIdentityClues { have: u8, need: u8 },
    AlreadyUncovered,
    UnknownAbility { id: String },
    BadAbilityArguments,
    NothingThere,
}

/// The name a pool goes by in a rejection.
pub open spec fn pool_word(pool: PoolKind) -> Seq<char> {
    match pool {
        PoolKind::Lore => "Lore"@,
        PoolKind::Social => "Social"@,
        PoolKind::Mystic => "Mystic"@,
        PoolKind::Physical => "Physical"@,
    }
}

fn pool_text(pool: PoolKind) -> (r: &'static str)
    ensures
        r@ == pool_word(pool),
{
    match pool {
        PoolKind::Lore => "Lore",
        PoolKind::Social => "Social",
        PoolKind::Mystic => "Mystic",
        PoolKind::Physical => "Physical",
    }
}

/// What the player is told for each rejection.
pub open spec fn rejection_text(r: Rejection) -> Seq<char> {
    match r {
        Rejection::RunOver => "The run is over."@,
        Rejection::Blocked { what } => "The way is blocked by "@ + what@ + "."@,
        Rejection::NoSuchTarget => "There is no such target."@,
        Rejection::OutOfRange => "The target is out of range."@,
        Rejection::NoLineOfSight => "You cannot see a clear line to the target."@,
        Rejection::NotAdjacent => "You need to be adjacent to do that."@,
        Rejection::NoAmmo { item } => "You have no "@ + item@ + " left."@,
        Rejection::PoolEmpty { pool, needed } => "That needs "@ + decimal(needed as nat) + " "@ + pool_word(pool)
            + " point(s) you do not have right now. Travel restores your pools."@,
        Rejection::StaminaShort { needed } => "You need "@ + decimal(needed as nat) + " stamina; catch your breath a moment."@,
        Rejection::NotDiscovered => "You do not know about that yet."@,
        Rejection::AlreadyResolved => "That is already done."@,
        Rejection::NpcUnavailable => "They are not here to be dealt with."@,
        Rejection::NpcWillNotTalk => "They want nothing to do with you."@,
        Rejection::NotEnoughCoin { needed } => "That costs "@ + decimal(needed as nat) + " coin."@,
        Rejection::NotAtExit => "Stand on a marked exit to travel."@,
        Rejection::TravelBlockedByFinalHunt => "There is no time left to run. The hunt is here."@,
        Rejection::NotAtWorkstation => "You need a workstation to craft."@,
        Rejection::MissingIngredients { recipe } => "You lack the ingredients for "@ + recipe@ + "."@,
        Rejection::NotAtAltar => "The rite must be performed at the altar."@,
        Rejection::AlreadyConsecrated => "This ground is already warded."@,
        Rejection::NotAtGrave => "Stand at a grave to open it."@,
        Rejection::NothingToForce => "There is nothing there that force will move."@,
        Rejection::GraveAlreadyOpened => "This grave already lies open."@,
        Rejection::NeedMoreIdentityClues { have, need } => "You have "@ + decimal(have as nat) + " of the "@ + decimal(
            need as nat,
        ) + " corroborating proofs a hunt demands."@,
        Rejection::AlreadyUncovered => "You already know your quarry."@,
        Rejection::UnknownAbility { id } => "You know no ability called '"@ + id@ + "'."@,
        Rejection::BadAbilityArguments => "That ability needs a different target."@,
        Rejection::NothingThere => "There is nothing there."@,
    }
}

impl Rejection {
    /// The explanation shown to the player.
    pub fn message(&self) -> (r: String)
        ensures
            r@ == rejection_text(*self),
    {
        let mut out = String::new();
        match self {
            Rejection::RunOver => push_text(&mut out, "The run is over."),
            Rejection::Blocked { what } => {
                push_text(&mut out, "The way is blocked by ");
                push_text(&mut out, what.as_str());
                push_text(&mut out, ".");
            },
            Rejection::NoSuchTarget => push_text(&mut out, "There is no such target."),
            Rejection::OutOfRange => push_text(&mut out, "The target is out of range."),
            Rejection::NoLineOfSight => push_text(&mut out, "You cannot see a clear line to the target."),
            Rejection::NotAdjacent => push_text(&mut out, "You need to be adjacent to do that."),
            Rejection::NoAmmo { item } => {
                push_text(&mut out, "You have no ");
                push_text(&mut out, item.as_str());
                push_text(&mut out, " left.");
            },
            Rejection::PoolEmpty { pool, needed } => {
                push_text(&mut out, "That needs ");
                push_number(&mut out, *needed as u128);
                push_text(&mut out, " ");
                push_text(&mut out, pool_text(*pool));
                push_text(&mut out, " point(s) you do not have right now. Travel restores your pools.");
            },
            Rejection::StaminaShort { needed } => {
                push_text(&mut out, "You need ");
                push_number(&mut out, *needed as u128);
                push_text(&mut out, " stamina; catch your breath a moment.");
            },
            Rejection::NotDiscovered => push_text(&mut out, "You do not know about that yet."),
            Rejection::AlreadyResolved => push_text(&mut out, "That is already done."),
            Rejection::NpcUnavailable => push_text(&mut out, "They are not here to be dealt with."),
            Rejection::NpcWillNotTalk => push_text(&mut out, "They want nothing to do with you."),
            Rejection::NotEnoughCoin { needed } => {
                push_text(&mut out, "That costs ");
                push_number(&mut out, *needed as u128);
                push_text(&mut out, " coin.");
            },
            Rejection::NotAtExit => push_text(&mut out, "Stand on a marked exit to travel."),
            Rejection::TravelBlockedByFinalHunt => push_text(&mut out, "There is no time left to run. The hunt is here."),
            Rejection::NotAtWorkstation => push_text(&mut out, "You need a workstation to craft."),
            Rejection::MissingIngredients { recipe } => {
                push_text(&mut out, "You lack the ingredients for ");
                push_text(&mut out, recipe.as_str());
                push_text(&mut out, ".");
            },
            Rejection::NotAtAltar => push_text(&mut out, "The rite must be performed at the altar."),
            Rejection::AlreadyConsecrated => push_text(&mut out, "This ground is already warded."),
            Rejection::NotAtGrave => push_text(&mut out, "Stand at a grave to open it."),
            Rejection::NothingToForce => push_text(&mut out, "There is nothing there that force will move."),
            Rejection::GraveAlreadyOpened => push_text(&mut out, "This grave already lies open."),
            Rejection::NeedMoreIdentityClues { have, need } => {
                push_text(&mut out, "You have ");
                push_number(&mut out, *have as u128);
                push_text(&mut out, " of the ");
                push_number(&mut out, *need as u128);
                push_text(&mut out, " corroborating proofs a hunt demands.");
            },
            Rejection::AlreadyUncovered => push_text(&mut out, "You already know your quarry."),
            Rejection::UnknownAbility { id } => {
                push_text(&mut out, "You know no ability called '");
                push_text(&mut out, id.as_str());
                push_text(&mut out, "'.");
            },
            Rejection::BadAbilityArguments => push_text(&mut out, "That ability needs a different target."),
            Rejection::NothingThere => push_text(&mut out, "There is nothing there."),
        }
        proof {
            assert(out@ =~= rejection_text(*self));
        }
        out
    }
}

} // verus!
