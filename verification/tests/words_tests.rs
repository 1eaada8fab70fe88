use visual::parse::{
    color_word, easing_word, is_player_word, spawn_cmd_kind, ColorWord, EasingWord, SpawnCmdKind,
};

#[test]
fn bullet_kinds() {
    assert_eq!(spawn_cmd_kind("bullet", false, false, false), Some(SpawnCmdKind::Bullet));
    assert_eq!(spawn_cmd_kind("bullet", false, true, true), Some(SpawnCmdKind::Bullet));
    assert_eq!(spawn_cmd_kind("bullet", true, true, false), Some(SpawnCmdKind::BulletAngleStart));
    assert_eq!(spawn_cmd_kind("bullet", true, false, false), Some(SpawnCmdKind::BulletAngleEnd));
}

#[test]
fn laser_kinds() {
    assert_eq!(spawn_cmd_kind("laser", false, false, true), Some(SpawnCmdKind::LaserThruPoints));
    assert_eq!(spawn_cmd_kind("laser", true, false, false), Some(SpawnCmdKind::Laser));
}

#[test]
fn other_command_words() {
    let words = [
        ("bomb", SpawnCmdKind::CircleBomb),
        ("set_rotation_on", SpawnCmdKind::SetRotationOn),
        ("set_rotation_off", SpawnCmdKind::SetRotationOff),
        ("set_fadeout_on", SpawnCmdKind::SetFadeOutOn),
        ("set_fadeout_off", SpawnCmdKind::SetFadeOutOff),
        ("set_render_warmup", SpawnCmdKind::SetRenderWarmup),
        ("set_render", SpawnCmdKind::SetRender),
        ("set_hitbox", SpawnCmdKind::SetHitbox),
        ("clear_enemies", SpawnCmdKind::ClearEnemies),
    ];
    for (word, kind) in words {
        assert_eq!(spawn_cmd_kind(word, true, true, true), Some(kind));
    }
}

#[test]
fn unknown_command_words() {
    assert_eq!(spawn_cmd_kind("Bullet", false, false, false), None);
    assert_eq!(spawn_cmd_kind("", false, false, false), None);
    assert_eq!(spawn_cmd_kind("set_render_", false, false, false), None);
}

#[test]
fn warmup_beats_of_kinds() {
    assert_eq!(SpawnCmdKind::Laser.warmup_beats(), 4);
    assert_eq!(SpawnCmdKind::LaserThruPoints.warmup_beats(), 4);
    assert_eq!(SpawnCmdKind::CircleBomb.warmup_beats(), 4);
    assert_eq!(SpawnCmdKind::Bullet.warmup_beats(), 0);
    assert_eq!(SpawnCmdKind::BulletAngleEnd.warmup_beats(), 0);
    assert_eq!(SpawnCmdKind::SetHitbox.warmup_beats(), 0);
}

#[test]
fn easing_words() {
    assert_eq!(easing_word("constant"), Some(EasingWord::Constant));
    assert_eq!(easing_word("linear"), Some(EasingWord::Linear));
    assert_eq!(easing_word("exponential"), Some(EasingWord::Exponential));
    assert_eq!(easing_word("quadratic"), None);
}

#[test]
fn color_words() {
    assert_eq!(color_word("red"), Some(ColorWord::Red));
    assert_eq!(color_word("green"), Some(ColorWord::Green));
    assert_eq!(color_word("blue"), Some(ColorWord::Blue));
    assert_eq!(color_word("black"), Some(ColorWord::Black));
    assert_eq!(color_word("white"), Some(ColorWord::White));
    assert_eq!(color_word("transparent"), Some(ColorWord::Transparent));
    assert_eq!(color_word("transparent_black"), Some(ColorWord::TransparentBlack));
    assert_eq!(color_word("purple"), None);
}

#[test]
fn player_word() {
    assert!(is_player_word("player"));
    assert!(!is_player_word("players"));
    assert!(!is_player_word("Player"));
}
