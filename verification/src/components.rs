//! The data carried by actors and by the game session.

use crate::geometry::{Position, Size};
use crate::timing::{aged, Countdown, MILLISECOND, SECOND};
use vstd::prelude::*;

verus! {

/// Health lost by the player on contact with an enemy body.
pub const CONTACT_DAMAGE: i32 = 10;

/// Health lost by a victim struck by attack geometry.
pub const STRIKE_DAMAGE: i32 = 1;

/// Health lost by the player caught under the boss's stomp.
pub const STOMP_DAMAGE: i32 = 500;

/// Length of the invulnerability window granted after contact damage and
/// after a dash.
pub const INVULNERABILITY_TIME: u64 = 500 * MILLISECOND;

/// Time that attack geometry stays in the world.
pub const ATTACK_LIFETIME: u64 = 100 * MILLISECOND;

/// Length of the boss's invulnerable phase.
pub const BOSS_INVULNERABLE_TIME: u64 = 2_500 * MILLISECOND;

/// Length of the boss's vulnerable phase.
pub const BOSS_SOLID_TIME: u64 = 5 * SECOND;

/// Health of a freshly spawned boss.
pub const BOSS_HEALTH: i32 = 5;

/// The bounding box of an actor and the handles it overlapped this tick.
#[derive(Clone, Debug)]
pub struct Collider {
    pub size: Size,
    pub collisions: Vec<u64>,
}

impl Collider {
    /// A collider of the given size that has met nothing yet.
    pub fn new(size: Size) -> (collider: Collider)
        ensures
            collider.size == size,
            collider.collisions@ == Seq::<u64>::empty(),
    {
        Collider { size, collisions: Vec::new() }
    }
}

/// Hit points. They may fall below zero until the dead are cleaned up.
#[derive(Clone, Copy, Debug, PartialEq, Eq, Structural)]
pub struct Health {
    pub hp: i32,
}

/// `value` held to the range of `i32`.
pub open spec fn clamp_i32(value: int) -> i32 {
    if value < i32::MIN {
        i32::MIN
    } else if value > i32::MAX {
        i32::MAX
    } else {
        value as i32
    }
}

impl Health {
    /// Takes `amount` hit points away, saturating at the bounds of `i32`.
    pub fn take_damage(&mut self, amount: i32)
        ensures
            final(self).hp == clamp_i32(old(self).hp - amount),
    {
        let left: i64 = self.hp as i64 - amount as i64;
        if left < i32::MIN as i64 {
            self.hp = i32::MIN;
        } else if left > i32::MAX as i64 {
            self.hp = i32::MAX;
        } else {
            self.hp = left as i32;
        }
    }
}

/// Direction of travel, in millionths per axis.
#[derive(Clone, Copy, Debug, PartialEq, Eq, Structural)]
pub struct Velocity {
    pub x: i32,
    pub y: i32,
}

/// Tag of the player's actor.
#[derive(Clone, Copy, Debug, PartialEq, Eq, Structural)]
pub struct Player;

/// Tag of an ordinary enemy.
#[derive(Clone, Copy, Debug, PartialEq, Eq, Structural)]
pub struct Enemy;

/// Tag of a rectangular attack volume: a ranged beam or a dash trail.
#[derive(Clone, Copy, Debug, PartialEq, Eq, Structural)]
pub struct Line;

/// Tag of one sampled point of an arc or circle ability.
#[derive(Clone, Copy, Debug, PartialEq, Eq, Structural)]
pub struct PointMarker;

/// Tag of an actor that is removed when the episode restarts.
#[derive(Clone, Copy, Debug, PartialEq, Eq, Structural)]
pub struct Resettable;

/// The time after which a transient actor is removed.
#[derive(Clone, Copy, Debug, PartialEq, Eq, Structural)]
pub struct Lifetime {
    pub timer: Countdown,
}

/// A running invulnerability window. An actor without one can be damaged.
#[derive(Clone, Copy, Debug, PartialEq, Eq, Structural)]
pub struct Invulnerability {
    pub timer: Countdown,
}

/// The abilities of the player.
#[derive(Clone, Copy, Debug, PartialEq, Eq, Hash, Structural)]
pub enum Ability {
    Dash,
    Attack,
    Ranged,
    Aoe,
}

impl Ability {
    /// The recovery time of the ability, in nanoseconds.
    pub open spec fn spec_base_cooldown(self) -> u64 {
        match self {
            Ability::Dash => (5 * SECOND) as u64,
            Ability::Ranged => (3 * SECOND) as u64,
            Ability::Attack => SECOND,
            Ability::Aoe => (10 * SECOND) as u64,
        }
    }

    /// The recovery time of the ability, in nanoseconds.
    #[verifier::when_used_as_spec(spec_base_cooldown)]
    pub fn base_cooldown(self) -> (time: u64)
        ensures
            time == self.spec_base_cooldown(),
    {
        match self {
            Ability::Dash => 5 * SECOND,
            Ability::Ranged => 3 * SECOND,
            Ability::Attack => SECOND,
            Ability::Aoe => 10 * SECOND,
        }
    }

    /// The name under which the ability is shown.
    pub open spec fn spec_name(self) -> Seq<char> {
        match self {
            Ability::Attack => "Attack"@,
            Ability::Ranged => "Ranged"@,
            Ability::Dash => "Dash"@,
            Ability::Aoe => "Bladestorm"@,
        }
    }

    /// The name under which the ability is shown.
    pub fn name(self) -> (text: String)
        ensures
            text@ == self.spec_name(),
    {
        match self {
            Ability::Attack => "Attack".to_string(),
            Ability::Ranged => "Ranged".to_string(),
            Ability::Dash => "Dash".to_string(),
            Ability::Aoe => "Bladestorm".to_string(),
        }
    }
}

/// The recovery countdown of each ability. An ability can be used when its
/// countdown is zero.
#[derive(Clone, Copy, Debug, PartialEq, Eq, Structural)]
pub struct Cooldowns {
    pub dash: Countdown,
    pub attack: Countdown,
    pub ranged: Countdown,
    pub aoe: Countdown,
}

impl Cooldowns {
    /// The time left before `ability` can be used again.
    pub open spec fn remaining(self, ability: Ability) -> u64 {
        match ability {
            Ability::Dash => self.dash.remaining,
            Ability::Attack => self.attack.remaining,
            Ability::Ranged => self.ranged.remaining,
            Ability::Aoe => self.aoe.remaining,
        }
    }

    /// The cooldowns of an actor whose abilities all start to recover: every
    /// countdown stands at the recovery time of its ability.
    pub open spec fn full() -> Cooldowns {
        Cooldowns {
            dash: Countdown { remaining: Ability::Dash.spec_base_cooldown() },
            attack: Countdown { remaining: Ability::Attack.spec_base_cooldown() },
            ranged: Countdown { remaining: Ability::Ranged.spec_base_cooldown() },
            aoe: Countdown { remaining: Ability::Aoe.spec_base_cooldown() },
        }
    }

    /// The cooldowns of a new actor: every ability starts recovering.
    pub fn new() -> (cooldowns: Cooldowns)
        ensures
            cooldowns == Cooldowns::full(),
    {
        Cooldowns {
            dash: Countdown::new(Ability::Dash.base_cooldown()),
            attack: Countdown::new(Ability::Attack.base_cooldown()),
            ranged: Countdown::new(Ability::Ranged.base_cooldown()),
            aoe: Countdown::new(Ability::Aoe.base_cooldown()),
        }
    }

    /// Whether `ability` has recovered.
    pub fn is_ready(&self, ability: Ability) -> (ready: bool)
        ensures
            ready == (self.remaining(ability) == 0),
    {
        match ability {
            Ability::Dash => self.dash.finished(),
            Ability::Attack => self.attack.finished(),
            Ability::Ranged => self.ranged.finished(),
            Ability::Aoe => self.aoe.finished(),
        }
    }

    /// The cooldowns after the recovery of `ability` has started anew; the
    /// other abilities are untouched.
    pub open spec fn after_reset(self, ability: Ability) -> Cooldowns {
        let full = Countdown { remaining: ability.spec_base_cooldown() };
        match ability {
            Ability::Dash => Cooldowns { dash: full, ..self },
            Ability::Attack => Cooldowns { attack: full, ..self },
            Ability::Ranged => Cooldowns { ranged: full, ..self },
            Ability::Aoe => Cooldowns { aoe: full, ..self },
        }
    }

    /// The cooldowns after `delta` nanoseconds have passed.
    pub open spec fn after_tick(self, delta: u64) -> Cooldowns {
        Cooldowns {
            dash: Countdown { remaining: aged(self.dash.remaining, delta) },
            attack: Countdown { remaining: aged(self.attack.remaining, delta) },
            ranged: Countdown { remaining: aged(self.ranged.remaining, delta) },
            aoe: Countdown { remaining: aged(self.aoe.remaining, delta) },
        }
    }

    /// Starts the recovery of `ability` anew; the others are untouched.
    pub fn reset(&mut self, ability: Ability)
        ensures
            *final(self) == old(self).after_reset(ability),
    {
        match ability {
            Ability::Dash => {
                self.dash = Countdown::new(Ability::Dash.base_cooldown());
            },
            Ability::Attack => {
                self.attack = Countdown::new(Ability::Attack.base_cooldown());
            },
            Ability::Ranged => {
                self.ranged = Countdown::new(Ability::Ranged.base_cooldown());
            },
            Ability::Aoe => {
                self.aoe = Countdown::new(Ability::Aoe.base_cooldown());
            },
        }
    }

    /// The time left before `ability` can be used again, in nanoseconds.
    pub fn get_cooldown(&self, ability: Ability) -> (left: Option<u64>)
        ensures
            left == Some(self.remaining(ability)),
    {
        match ability {
            Ability::Dash => Some(self.dash.remaining()),
            Ability::Attack => Some(self.attack.remaining()),
            Ability::Ranged => Some(self.ranged.remaining()),
            Ability::Aoe => Some(self.aoe.remaining()),
        }
    }

    /// Starts the recovery of every ability anew.
    pub fn reset_all(&mut self)
        ensures
            *final(self) == Cooldowns::full(),
    {
        self.dash = Countdown::new(Ability::Dash.base_cooldown());
        self.attack = Countdown::new(Ability::Attack.base_cooldown());
        self.ranged = Countdown::new(Ability::Ranged.base_cooldown());
        self.aoe = Countdown::new(Ability::Aoe.base_cooldown());
    }

    /// Lets `delta` nanoseconds pass on every countdown.
    pub fn tick(&mut self, delta: u64)
        ensures
            *final(self) == old(self).after_tick(delta),
    {
        self.dash.tick(delta);
        self.attack.tick(delta);
        self.ranged.tick(delta);
        self.aoe.tick(delta);
    }
}

/// The phases of the boss.
#[derive(Clone, Copy, Debug, PartialEq, Eq, Structural)]
pub enum BigfootState {
    /// In the air: takes no damage.
    Invulnerable,
    /// On the ground: takes damage from attack geometry.
    Solid,
    /// Declared for a farewell phase; nothing enters it and nothing leaves it.
    Cleanup,
}

/// The state of the boss: its phase, the time left in it, its health and the
/// position it last mirrored from its actor.
#[derive(Clone, Copy, Debug, PartialEq, Eq, Structural)]
pub struct Bigfoot {
    pub x: i32,
    pub y: i32,
    pub state: BigfootState,
    pub timer: Countdown,
    pub health: i32,
}

impl Bigfoot {
    /// The health left after `amount` damage: never below zero.
    pub open spec fn health_after(health: i32, amount: i32) -> i32 {
        if health - amount < 0 {
            0
        } else {
            clamp_i32(health - amount)
        }
    }

    /// A boss at `(x, y)` that starts its invulnerable phase.
    pub fn new(x: i32, y: i32) -> (boss: Bigfoot)
        ensures
            boss == (Bigfoot {
                x,
                y,
                state: BigfootState::Invulnerable,
                timer: Countdown { remaining: BOSS_INVULNERABLE_TIME },
                health: BOSS_HEALTH,
            }),
    {
        Bigfoot {
            x,
            y,
            state: BigfootState::Invulnerable,
            timer: Countdown::new(BOSS_INVULNERABLE_TIME),
            health: BOSS_HEALTH,
        }
    }

    /// Takes `amount` health away; health stops at zero.
    pub fn take_damage(&mut self, amount: i32)
        ensures
            final(self).health == Self::health_after(old(self).health, amount),
            final(self).x == old(self).x,
            final(self).y == old(self).y,
            final(self).state == old(self).state,
            final(self).timer == old(self).timer,
    {
        let left: i64 = self.health as i64 - amount as i64;
        if left < 0 {
            self.health = 0;
        } else if left > i32::MAX as i64 {
            self.health = i32::MAX;
        } else {
            self.health = left as i32;
        }
    }

    /// Whether the boss has no health left.
    pub fn is_dead(&self) -> (dead: bool)
        ensures
            dead == (self.health <= 0),
    {
        self.health <= 0
    }
}

/// The number of kills of the running episode.
#[derive(Clone, Copy, Debug, PartialEq, Eq, Structural)]
pub struct Score {
    pub enemies_killed: u32,
}

impl Score {
    /// The score after one more kill; it stops at the largest `u32`.
    pub open spec fn after_kill(killed: u32) -> u32 {
        if killed < u32::MAX {
            (killed + 1) as u32
        } else {
            killed
        }
    }

    /// A score of zero.
    pub fn new() -> (score: Score)
        ensures
            score.enemies_killed == 0,
    {
        Score { enemies_killed: 0 }
    }

    /// Sets the score back to zero.
    pub fn reset(&mut self)
        ensures
            final(self).enemies_killed == 0,
    {
        self.enemies_killed = 0;
    }

    /// Counts one more kill.
    pub fn increment(&mut self)
        ensures
            final(self).enemies_killed == Self::after_kill(old(self).enemies_killed),
    {
        if self.enemies_killed < u32::MAX {
            self.enemies_killed += 1;
        }
    }

    /// The number of kills.
    pub fn get_enemies_killed(&self) -> (killed: u32)
        ensures
            killed == self.enemies_killed,
    {
        self.enemies_killed
    }
}

/// The survival time of the running episode, in nanoseconds.
#[derive(Clone, Copy, Debug, PartialEq, Eq, Structural)]
pub struct GameTimer(pub u64);

/// The states of the game as a whole.
#[derive(Clone, Copy, Debug, PartialEq, Eq, Hash, Structural)]
pub enum GameState {
    Running,
    Menu,
    Paused,
    Reset,
    GameOver,
    Won,
}

impl Default for GameState {
    fn default() -> (state: GameState)
        ensures
            state == GameState::Running,
    {
        GameState::Running
    }
}

/// The state the game is in.
#[derive(Clone, Copy, Debug, PartialEq, Eq, Structural)]
pub struct CurrentGameState {
    pub state: GameState,
}

/// The pointer's position in the world.
#[derive(Clone, Copy, Debug, PartialEq, Eq, Structural)]
pub struct MousePosition {
    pub x: i32,
    pub y: i32,
}

/// The points sampled by the last arc or circle ability.
#[derive(Clone, Debug)]
pub struct Points(pub Vec<Position>);

} // verus!
