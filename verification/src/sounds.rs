//! Which recording is played for a sound, and how loud.

use crate::components::Ability;
use crate::events::Sound;
use vstd::prelude::*;

verus! {

/// Number of recordings among which a swing picks one.
pub const SWING_VARIANTS: usize = 3;

/// A recording to play: its path among the assets and its volume in
/// thousandths of full volume.
#[derive(Clone, Copy, Debug, PartialEq, Eq)]
pub struct Playback {
    pub path: &'static str,
    pub volume: u32,
}

/// The path of the recording of `sound`; `variant` picks among the
/// recordings of a swing and is ignored by the other sounds.
pub open spec fn recording(sound: Sound, variant: int) -> Seq<char> {
    match sound {
        Sound::Death => "./sfx/death.ogg"@,
        Sound::EmptySwing => if variant == 0 {
            "sfx/swing1.ogg"@
        } else if variant == 1 {
            "sfx/swing2.ogg"@
        } else {
            "sfx/swing3.ogg"@
        },
        Sound::HitSwing => if variant == 0 {
            "sfx/hit1.ogg"@
        } else if variant == 1 {
            "sfx/hit2.ogg"@
        } else {
            "sfx/hit3.ogg"@
        },
        Sound::BoneHit => "./sfx/bone.ogg"@,
        Sound::Dash => "./sfx/dash.ogg"@,
        Sound::Aoe => "./sfx/aoe.ogg"@,
        Sound::Stomp => "./sfx/stomp.ogg"@,
        Sound::Ranged => "./sfx/ranged.ogg"@,
        Sound::Select => "sfx/select.ogg"@,
    }
}

/// The volume of `sound`, in thousandths of full volume.
pub open spec fn loudness(sound: Sound) -> u32 {
    match sound {
        Sound::Death => 300,
        Sound::EmptySwing => 1000,
        Sound::HitSwing => 1000,
        Sound::BoneHit => 150,
        Sound::Dash => 2750,
        Sound::Aoe => 800,
        Sound::Stomp => 600,
        Sound::Ranged => 600,
        Sound::Select => 1300,
    }
}

/// Looks up the recording and the volume of `sound`; `variant` picks among
/// the recordings of a swing.
pub fn playback(sound: Sound, variant: usize) -> (play: Playback)
    requires
        variant < SWING_VARIANTS,
    ensures
        play.path@ == recording(sound, variant as int),
        play.volume == loudness(sound),
{
    match sound {
        Sound::Death => Playback { path: "./sfx/death.ogg", volume: 300 },
        Sound::EmptySwing => {
            let path = if variant == 0 {
                "sfx/swing1.ogg"
            } else if variant == 1 {
                "sfx/swing2.ogg"
            } else {
                "sfx/swing3.ogg"
            };
            Playback { path, volume: 1000 }
        },
        Sound::HitSwing => {
            let path = if variant == 0 {
                "sfx/hit1.ogg"
            } else if variant == 1 {
                "sfx/hit2.ogg"
            } else {
                "sfx/hit3.ogg"
            };
            Playback { path, volume: 1000 }
        },
        Sound::BoneHit => Playback { path: "./sfx/bone.ogg", volume: 150 },
        Sound::Dash => Playback { path: "./sfx/dash.ogg", volume: 2750 },
        Sound::Aoe => Playback { path: "./sfx/aoe.ogg", volume: 800 },
        Sound::Stomp => Playback { path: "./sfx/stomp.ogg", volume: 600 },
        Sound::Ranged => Playback { path: "./sfx/ranged.ogg", volume: 600 },
        Sound::Select => Playback { path: "sfx/select.ogg", volume: 1300 },
    }
}

/// Draws a number below `len` from the thread's random number generator.
///
/// Trusted: `rand::Rng::gen_range` over the half-open range from zero to
/// `len`, on the generator that `rand::thread_rng` hands out. The range must
/// not be empty, and the number drawn lies in it; nothing else is known of
/// it.
#[verifier::external_body]
fn random_index(len: usize) -> (index: usize)
    requires
        len > 0,
    ensures
        index < len,
{
    rand::Rng::gen_range(&mut rand::thread_rng(), 0..len)
}

/// The recording for the death of the player.
pub fn death_sound() -> (play: Playback)
    ensures
        play.path@ == recording(Sound::Death, 0),
        play.volume == loudness(Sound::Death),
{
    playback(Sound::Death, 0)
}

/// Picks, at random, one of the recordings of a swing that hit nothing.
pub fn play_empty_swing() -> (play: Playback)
    ensures
        exists|variant: int|
            0 <= variant < SWING_VARIANTS && play.path@ == recording(Sound::EmptySwing, variant),
        play.volume == loudness(Sound::EmptySwing),
{
    let variant = random_index(SWING_VARIANTS);
    playback(Sound::EmptySwing, variant)
}

/// Picks, at random, one of the recordings of a swing that hit.
pub fn play_hit_swing() -> (play: Playback)
    ensures
        exists|variant: int|
            0 <= variant < SWING_VARIANTS && play.path@ == recording(Sound::HitSwing, variant),
        play.volume == loudness(Sound::HitSwing),
{
    let variant = random_index(SWING_VARIANTS);
    playback(Sound::HitSwing, variant)
}

/// The recording for a victim slain.
pub fn bone_hit() -> (play: Playback)
    ensures
        play.path@ == recording(Sound::BoneHit, 0),
        play.volume == loudness(Sound::BoneHit),
{
    playback(Sound::BoneHit, 0)
}

/// The recording for a dash.
pub fn dash_sound() -> (play: Playback)
    ensures
        play.path@ == recording(Sound::Dash, 0),
        play.volume == loudness(Sound::Dash),
{
    playback(Sound::Dash, 0)
}

/// The recording for the area burst.
pub fn aoe_sound() -> (play: Playback)
    ensures
        play.path@ == recording(Sound::Aoe, 0),
        play.volume == loudness(Sound::Aoe),
{
    playback(Sound::Aoe, 0)
}

/// The recording for the stomp of the boss.
pub fn stomp_sound() -> (play: Playback)
    ensures
        play.path@ == recording(Sound::Stomp, 0),
        play.volume == loudness(Sound::Stomp),
{
    playback(Sound::Stomp, 0)
}

/// The recording for the ranged beam.
pub fn ranged_sound() -> (play: Playback)
    ensures
        play.path@ == recording(Sound::Ranged, 0),
        play.volume == loudness(Sound::Ranged),
{
    playback(Sound::Ranged, 0)
}

/// The recording for a choice made in a menu.
pub fn menu_sound() -> (play: Playback)
    ensures
        play.path@ == recording(Sound::Select, 0),
        play.volume == loudness(Sound::Select),
{
    playback(Sound::Select, 0)
}

/// The sound that goes with the use of `ability`; a melee swing sounds
/// different when it slew something.
pub open spec fn sound_of(ability: Ability, hit: bool) -> Sound {
    match ability {
        Ability::Ranged => Sound::Ranged,
        Ability::Dash => Sound::Dash,
        Ability::Aoe => Sound::Aoe,
        Ability::Attack => if hit {
            Sound::HitSwing
        } else {
            Sound::EmptySwing
        },
    }
}

/// Picks the sound that goes with the use of `ability`.
pub fn ability_sound(ability: Ability, hit: bool) -> (sound: Sound)
    ensures
        sound == sound_of(ability, hit),
{
    match ability {
        Ability::Ranged => Sound::Ranged,
        Ability::Dash => Sound::Dash,
        Ability::Aoe => Sound::Aoe,
        Ability::Attack => if hit {
            Sound::HitSwing
        } else {
            Sound::EmptySwing
        },
    }
}

/// Picks the recording for `sound`; the recording of a swing is drawn at
/// random among its variants.
pub fn play(sound: Sound) -> (play: Playback)
    ensures
        exists|variant: int|
            0 <= variant < SWING_VARIANTS && play.path@ == recording(sound, variant),
        play.volume == loudness(sound),
{
    match sound {
        Sound::EmptySwing => play_empty_swing(),
        Sound::HitSwing => play_hit_swing(),
        _ => {
            let play = playback(sound, 0);
            play
        },
    }
}

} // verus!
