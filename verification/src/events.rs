//! What the phases of a tick hand to each other and to the outside.

use vstd::prelude::*;

verus! {

/// A classified overlap found by collision detection.
#[derive(Clone, Copy, Debug, PartialEq, Eq, Structural)]
pub enum CollisionEvent {
    /// The player touches the body of a victim.
    Collision,
    /// The attack geometry with this handle touches a victim.
    Damage(u64),
}

/// A sound that the core asks to be played.
#[derive(Clone, Copy, Debug, PartialEq, Eq, Structural)]
pub enum Sound {
    /// The player has died.
    Death,
    /// A swing that hit nothing.
    EmptySwing,
    /// A swing that hit.
    HitSwing,
    /// A victim was slain.
    BoneHit,
    /// The player dashed.
    Dash,
    /// The area burst went off.
    Aoe,
    /// The boss stomped.
    Stomp,
    /// The ranged beam was fired.
    Ranged,
    /// A choice was made in a menu.
    Select,
}

} // verus!
