use combat_core::components::Ability;
use combat_core::events::Sound;
use combat_core::sounds::{
    ability_sound, aoe_sound, bone_hit, dash_sound, death_sound, play, play_empty_swing,
    play_hit_swing, playback, ranged_sound, stomp_sound,
};

#[test]
fn every_sound_has_its_recording_and_volume() {
    assert_eq!((death_sound().path, death_sound().volume), ("./sfx/death.ogg", 300));
    assert_eq!((bone_hit().path, bone_hit().volume), ("./sfx/bone.ogg", 150));
    assert_eq!((dash_sound().path, dash_sound().volume), ("./sfx/dash.ogg", 2_750));
    assert_eq!((aoe_sound().path, aoe_sound().volume), ("./sfx/aoe.ogg", 800));
    assert_eq!((stomp_sound().path, stomp_sound().volume), ("./sfx/stomp.ogg", 600));
    assert_eq!((ranged_sound().path, ranged_sound().volume), ("./sfx/ranged.ogg", 600));
}

#[test]
fn swings_have_three_recordings() {
    assert_eq!(playback(Sound::EmptySwing, 0).path, "sfx/swing1.ogg");
    assert_eq!(playback(Sound::EmptySwing, 1).path, "sfx/swing2.ogg");
    assert_eq!(playback(Sound::EmptySwing, 2).path, "sfx/swing3.ogg");
    assert_eq!(playback(Sound::HitSwing, 0).path, "sfx/hit1.ogg");
    assert_eq!(playback(Sound::HitSwing, 1).path, "sfx/hit2.ogg");
    assert_eq!(playback(Sound::HitSwing, 2).path, "sfx/hit3.ogg");
    assert_eq!(playback(Sound::HitSwing, 2).volume, 1_000);
    assert_eq!(playback(Sound::Stomp, 2).path, "./sfx/stomp.ogg");
}

#[test]
fn a_swing_is_drawn_among_its_recordings() {
    let hits = ["sfx/hit1.ogg", "sfx/hit2.ogg", "sfx/hit3.ogg"];
    let misses = ["sfx/swing1.ogg", "sfx/swing2.ogg", "sfx/swing3.ogg"];
    let mut seen_hits = Vec::new();
    let mut seen_misses = Vec::new();
    for _ in 0..400 {
        let hit = play_hit_swing();
        assert!(hits.contains(&hit.path));
        assert_eq!(hit.volume, 1_000);
        if !seen_hits.contains(&hit.path) {
            seen_hits.push(hit.path);
        }
        let miss = play_empty_swing();
        assert!(misses.contains(&miss.path));
        assert_eq!(miss.volume, 1_000);
        if !seen_misses.contains(&miss.path) {
            seen_misses.push(miss.path);
        }
    }
    // Four hundred draws that all pick the same recording are out of the question.
    assert!(seen_hits.len() > 1);
    assert!(seen_misses.len() > 1);
}

#[test]
fn abilities_have_their_sounds() {
    assert_eq!(ability_sound(Ability::Ranged, false), Sound::Ranged);
    assert_eq!(ability_sound(Ability::Dash, true), Sound::Dash);
    assert_eq!(ability_sound(Ability::Aoe, false), Sound::Aoe);
    assert_eq!(ability_sound(Ability::Attack, false), Sound::EmptySwing);
    assert_eq!(ability_sound(Ability::Attack, true), Sound::HitSwing);
}

#[test]
fn playing_a_sound_picks_its_recording() {
    assert_eq!(play(Sound::Death).path, "./sfx/death.ogg");
    assert_eq!(play(Sound::BoneHit).volume, 150);
    let swing = play(Sound::HitSwing);
    assert!(swing.path.starts_with("sfx/hit"));
}
