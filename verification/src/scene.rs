//! What a key press does to the game's scenes: the menu and the playing level.
use vstd::prelude::*;

use crate::keyboard::KeyInput;

verus! {

/// The scene that the game shows.
#[derive(PartialEq, Eq, Structural, Debug, Clone, Copy)]
pub enum SceneKind {
    /// The level-select menu.
    LevelSelect,
    /// A level, which is playing when `started` holds and stopped otherwise.
    MainGame { started: bool },
}

/// What the game does in answer to a key press.
#[derive(PartialEq, Eq, Structural, Debug, Clone, Copy)]
pub enum SceneAction {
    /// Nothing besides remembering the key.
    Nothing,
    /// Move the menu's selection on by the given number of levels.
    ChangeSong(i32),
    /// Load the selected level and show it, stopped.
    LoadSelectedLevel,
    /// Stop the level and its music.
    StopWorld,
    /// Read the level's map again and start playing it from its start;
    /// `reload_music` asks to read the music again too.
    StartWorld { reload_music: bool },
    /// Spawn a laser from the player through the origin, for debugging.
    DebugSpawn,
}

/// The action that pressing `keycode` in `scene` asks for; `reload_held` says
/// whether R is held at the time.
pub open spec fn spec_key_down_action(scene: SceneKind, keycode: KeyInput, reload_held: bool) -> SceneAction {
    match scene {
        SceneKind::LevelSelect => match keycode {
            KeyInput::Up | KeyInput::W => SceneAction::ChangeSong(1i32),
            KeyInput::Down | KeyInput::S => SceneAction::ChangeSong(-1i32),
            KeyInput::Space => SceneAction::LoadSelectedLevel,
            _ => SceneAction::Nothing,
        },
        SceneKind::MainGame { started } => match keycode {
            KeyInput::P => if started {
                SceneAction::StopWorld
            } else {
                SceneAction::StartWorld { reload_music: reload_held }
            },
            KeyInput::X => SceneAction::DebugSpawn,
            _ => SceneAction::Nothing,
        },
    }
}

/// The action that pressing `keycode` in `scene` asks for. In the menu, up and
/// W move the selection on by one, down and S move it back by one, and space
/// loads the selected level. In a level, P stops a playing level and starts a
/// stopped one (reloading the music too when R is held), and X spawns a debug
/// laser. Every other key asks for nothing.
pub fn key_down_action(scene: SceneKind, keycode: KeyInput, reload_held: bool) -> (action: SceneAction)
    ensures
        action == spec_key_down_action(scene, keycode, reload_held),
        scene is MainGame && keycode != KeyInput::P && keycode != KeyInput::X ==> action == SceneAction::Nothing,
        scene is LevelSelect && !(keycode == KeyInput::Up || keycode == KeyInput::W || keycode == KeyInput::Down
            || keycode == KeyInput::S || keycode == KeyInput::Space) ==> action == SceneAction::Nothing,
        action is StartWorld ==> scene == (SceneKind::MainGame { started: false }) && keycode == KeyInput::P,
{
    match scene {
        SceneKind::LevelSelect => match keycode {
            KeyInput::Up | KeyInput::W => SceneAction::ChangeSong(1),
            KeyInput::Down | KeyInput::S => SceneAction::ChangeSong(-1),
            KeyInput::Space => SceneAction::LoadSelectedLevel,
            _ => SceneAction::Nothing,
        },
        SceneKind::MainGame { started } => {
            if keycode == KeyInput::P {
                if started {
                    SceneAction::StopWorld
                } else {
                    SceneAction::StartWorld { reload_music: reload_held }
                }
            } else if keycode == KeyInput::X {
                SceneAction::DebugSpawn
            } else {
                SceneAction::Nothing
            }
        },
    }
}

/// Whether the level is playing after `action` is done in `scene`.
pub open spec fn started_after(scene: SceneKind, action: SceneAction) -> bool {
    match scene {
        SceneKind::LevelSelect => false,
        SceneKind::MainGame { started } => match action {
            SceneAction::StopWorld => false,
            SceneAction::StartWorld { .. } => true,
            _ => started,
        },
    }
}

/// P toggles a level between playing and stopped: pressing it twice returns
/// the level to where it was, whether or not R is held.
pub proof fn lemma_pause_toggles(started: bool, reload1: bool, reload2: bool)
    ensures
        ({
            let first = SceneKind::MainGame { started };
            let second = SceneKind::MainGame {
                started: started_after(first, spec_key_down_action(first, KeyInput::P, reload1)),
            };
            &&& started_after(first, spec_key_down_action(first, KeyInput::P, reload1)) == !started
            &&& started_after(second, spec_key_down_action(second, KeyInput::P, reload2)) == started
        }),
{
}

/// In a level only P and X act: every other key, R among them, asks for
/// nothing, whether the level is playing or stopped and whether R is held.
pub proof fn lemma_level_acts_on_p_and_x_only(started: bool, keycode: KeyInput, reload_held: bool)
    requires
        keycode != KeyInput::P,
        keycode != KeyInput::X,
    ensures
        spec_key_down_action(SceneKind::MainGame { started }, keycode, reload_held) == SceneAction::Nothing,
{
}

/// In the menu only up, W, down, S and space act: every other key asks for
/// nothing.
pub proof fn lemma_menu_acts_on_navigation_only(keycode: KeyInput, reload_held: bool)
    requires
        !(keycode == KeyInput::Up || keycode == KeyInput::W || keycode == KeyInput::Down || keycode == KeyInput::S
            || keycode == KeyInput::Space),
    ensures
        spec_key_down_action(SceneKind::LevelSelect, keycode, reload_held) == SceneAction::Nothing,
{
}

/// A level starts only when P is pressed while it is stopped; it stops only
/// when P is pressed while it plays. Whether R is held changes only whether the
/// music is read again.
pub proof fn lemma_only_p_starts_and_stops(scene: SceneKind, keycode: KeyInput, reload_held: bool)
    ensures
        spec_key_down_action(scene, keycode, reload_held) is StartWorld <==> (scene == (SceneKind::MainGame {
            started: false,
        }) && keycode == KeyInput::P),
        spec_key_down_action(scene, keycode, reload_held) is StopWorld <==> (scene == (SceneKind::MainGame {
            started: true,
        }) && keycode == KeyInput::P),
        spec_key_down_action(scene, keycode, reload_held) is StartWorld ==> spec_key_down_action(
            scene,
            keycode,
            reload_held,
        ) == (SceneAction::StartWorld { reload_music: reload_held }),
        keycode != KeyInput::P ==> spec_key_down_action(scene, keycode, true) == spec_key_down_action(scene, keycode, false),
{
}

/// The keys that move the player never change a scene.
pub proof fn lemma_movement_keys_change_nothing(scene: SceneKind, reload_held: bool)
    requires
        scene is MainGame,
    ensures
        spec_key_down_action(scene, KeyInput::Left, reload_held) == SceneAction::Nothing,
        spec_key_down_action(scene, KeyInput::Right, reload_held) == SceneAction::Nothing,
        spec_key_down_action(scene, KeyInput::Up, reload_held) == SceneAction::Nothing,
        spec_key_down_action(scene, KeyInput::Down, reload_held) == SceneAction::Nothing,
        spec_key_down_action(scene, KeyInput::Space, reload_held) == SceneAction::Nothing,
{
}

} // verus!
