use visual::enemy::{ensure_group, EnemyGroup, EnemyLifetime, GroupSetting};
use visual::keyboard::KeyInput;
use visual::scene::{key_down_action, SceneAction, SceneKind};

#[test]
fn menu_keys() {
    let menu = SceneKind::LevelSelect;
    assert_eq!(key_down_action(menu, KeyInput::Up, false), SceneAction::ChangeSong(1));
    assert_eq!(key_down_action(menu, KeyInput::W, false), SceneAction::ChangeSong(1));
    assert_eq!(key_down_action(menu, KeyInput::Down, false), SceneAction::ChangeSong(-1));
    assert_eq!(key_down_action(menu, KeyInput::S, true), SceneAction::ChangeSong(-1));
    assert_eq!(key_down_action(menu, KeyInput::Space, false), SceneAction::LoadSelectedLevel);
    assert_eq!(key_down_action(menu, KeyInput::P, false), SceneAction::Nothing);
}

#[test]
fn game_keys() {
    let playing = SceneKind::MainGame { started: true };
    let stopped = SceneKind::MainGame { started: false };
    assert_eq!(key_down_action(playing, KeyInput::P, true), SceneAction::StopWorld);
    assert_eq!(
        key_down_action(stopped, KeyInput::P, false),
        SceneAction::StartWorld { reload_music: false }
    );
    assert_eq!(
        key_down_action(stopped, KeyInput::P, true),
        SceneAction::StartWorld { reload_music: true }
    );
    assert_eq!(key_down_action(playing, KeyInput::X, false), SceneAction::DebugSpawn);
    assert_eq!(key_down_action(stopped, KeyInput::Up, false), SceneAction::Nothing);
    assert_eq!(key_down_action(stopped, KeyInput::Space, false), SceneAction::Nothing);
}

type Group = EnemyGroup<u32, (), ()>;

#[test]
fn new_group_is_fresh() {
    let group: Group = EnemyGroup::new();
    assert!(group.enemies.is_empty());
    assert!(group.use_hitbox && group.do_render && group.render_warmup);
    assert!(group.fadeout.is_none() && group.rotation.is_none());
}

#[test]
fn lifetime_stages() {
    assert!(!EnemyLifetime::Unspawned.is_live());
    assert!(EnemyLifetime::Warmup.is_live());
    assert!(EnemyLifetime::Active.is_live());
    assert!(EnemyLifetime::Cooldown.is_live());
    assert!(!EnemyLifetime::Dead.is_live());
    assert!(EnemyLifetime::Active.has_hitbox());
    assert!(!EnemyLifetime::Warmup.has_hitbox());
    assert!(!EnemyLifetime::Cooldown.has_hitbox());
}

#[test]
fn group_drawing_and_hits() {
    let mut group: Group = EnemyGroup::new();
    assert!(group.draws(EnemyLifetime::Warmup));
    assert!(!group.draws(EnemyLifetime::Dead));
    assert!(!group.draws(EnemyLifetime::Unspawned));
    group.render_warmup = false;
    assert!(!group.draws(EnemyLifetime::Warmup));
    assert!(group.draws(EnemyLifetime::Active));
    group.do_render = false;
    assert!(!group.draws(EnemyLifetime::Active));
    assert!(group.can_hit(EnemyLifetime::Active));
    assert!(!group.can_hit(EnemyLifetime::Warmup));
    group.use_hitbox = false;
    assert!(!group.can_hit(EnemyLifetime::Active));
}

#[test]
fn remove_dead_keeps_live_in_order() {
    let mut group: Group = EnemyGroup::new();
    group.enemies = vec![1, 2, 3, 4, 5];
    group.use_hitbox = false;
    let lifetimes = vec![
        EnemyLifetime::Dead,
        EnemyLifetime::Active,
        EnemyLifetime::Dead,
        EnemyLifetime::Unspawned,
        EnemyLifetime::Cooldown,
    ];
    group.remove_dead(&lifetimes);
    assert_eq!(group.enemies, vec![2, 4, 5]);
    assert!(!group.use_hitbox);
}

#[test]
fn ensure_group_grows_only_when_needed() {
    let mut groups: Vec<Group> = Vec::new();
    ensure_group(&mut groups, 2);
    assert_eq!(groups.len(), 3);
    groups[1].enemies.push(9);
    ensure_group(&mut groups, 1);
    assert_eq!(groups.len(), 3);
    assert_eq!(groups[1].enemies, vec![9]);
    ensure_group(&mut groups, 5);
    assert_eq!(groups.len(), 6);
    assert!(groups[5].enemies.is_empty() && groups[5].use_hitbox);
}

#[test]
fn pause_key_toggles_twice_back() {
    let mut started = false;
    for reload in [false, true, true, false] {
        let action = key_down_action(SceneKind::MainGame { started }, KeyInput::P, reload);
        started = match action {
            SceneAction::StopWorld => false,
            SceneAction::StartWorld { .. } => true,
            _ => started,
        };
    }
    assert!(!started);
}

#[test]
fn apply_setting_changes_only_its_setting() {
    let mut group: Group = EnemyGroup::new();
    group.enemies = vec![1, 2];
    group.fadeout = Some(());
    group.rotation = Some(());
    group.apply_setting(GroupSetting::SetHitbox(false));
    assert!(!group.use_hitbox && group.do_render && group.render_warmup);
    group.apply_setting(GroupSetting::ShowWarmup(false));
    assert!(!group.render_warmup && group.do_render);
    group.apply_setting(GroupSetting::SetRender(false));
    assert!(!group.do_render);
    assert_eq!(group.enemies, vec![1, 2]);
    group.apply_setting(GroupSetting::FadeOutOff);
    assert!(group.fadeout.is_none() && group.rotation.is_some());
    group.apply_setting(GroupSetting::RotationOff);
    assert!(group.rotation.is_none());
    group.apply_setting(GroupSetting::ClearEnemies);
    assert!(group.enemies.is_empty());
    assert!(!group.use_hitbox);
}
