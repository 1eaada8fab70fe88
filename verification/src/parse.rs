//! The vocabulary of chart files: the words that name spawn commands, easings,
//! colors and positions.
use vstd::prelude::*;

verus! {

/// Whether two strings are equal.
fn str_eq(a: &str, b: &str) -> (res: bool)
    ensures
        res == (a@ == b@),
{
    a.to_owned() == b.to_owned()
}

/// The kind of a command of a chart file, as its `spawn_cmd` word and the keys
/// present beside it decide.
#[derive(PartialEq, Eq, Structural, Debug, Clone, Copy)]
pub enum SpawnCmdKind {
    /// A bullet from `start_pos` to `end_pos`.
    Bullet,
    /// A bullet from `start_pos` at `angle` over `length`.
    BulletAngleStart,
    /// A bullet to `end_pos` from `angle` over `length`.
    BulletAngleEnd,
    /// A laser through `position` at `angle`.
    Laser,
    /// A laser through the points `a` and `b`.
    LaserThruPoints,
    /// A bomb at `pos`.
    CircleBomb,
    /// Rotate the enemy group.
    SetRotationOn,
    /// Stop rotating the enemy group.
    SetRotationOff,
    /// Fade the enemy group out.
    SetFadeOutOn,
    /// Stop fading the enemy group out.
    SetFadeOutOff,
    /// Show or hide the warmup of the group's enemies.
    SetRenderWarmup,
    /// Show or hide the group's enemies.
    SetRender,
    /// Turn the hitboxes of the group's enemies on or off.
    SetHitbox,
    /// Remove every enemy of the group.
    ClearEnemies,
}

/// The kind of command that the word `name` names, given whether the command's
/// table has the keys `angle`, `start_pos` and `a`; `None` for an unknown word.
pub open spec fn spec_spawn_cmd_kind(name: Seq<char>, has_angle: bool, has_start_pos: bool, has_a: bool) -> Option<SpawnCmdKind> {
    if name == "bullet"@ {
        if has_angle {
            if has_start_pos {
                Some(SpawnCmdKind::BulletAngleStart)
            } else {
                Some(SpawnCmdKind::BulletAngleEnd)
            }
        } else {
            Some(SpawnCmdKind::Bullet)
        }
    } else if name == "laser"@ {
        if has_a {
            Some(SpawnCmdKind::LaserThruPoints)
        } else {
            Some(SpawnCmdKind::Laser)
        }
    } else if name == "bomb"@ {
        Some(SpawnCmdKind::CircleBomb)
    } else if name == "set_rotation_on"@ {
        Some(SpawnCmdKind::SetRotationOn)
    } else if name == "set_rotation_off"@ {
        Some(SpawnCmdKind::SetRotationOff)
    } else if name == "set_fadeout_on"@ {
        Some(SpawnCmdKind::SetFadeOutOn)
    } else if name == "set_fadeout_off"@ {
        Some(SpawnCmdKind::SetFadeOutOff)
    } else if name == "set_render_warmup"@ {
        Some(SpawnCmdKind::SetRenderWarmup)
    } else if name == "set_render"@ {
        Some(SpawnCmdKind::SetRender)
    } else if name == "set_hitbox"@ {
        Some(SpawnCmdKind::SetHitbox)
    } else if name == "clear_enemies"@ {
        Some(SpawnCmdKind::ClearEnemies)
    } else {
        None
    }
}

/// The kind of command that the `spawn_cmd` word `name` names: a bullet takes
/// an angle when the table has `angle`, and then starts at `start_pos` when the
/// table has it (else it ends at `end_pos`); a laser goes through two points
/// when the table has `a`. `None` for an unknown word.
pub fn spawn_cmd_kind(name: &str, has_angle: bool, has_start_pos: bool, has_a: bool) -> (kind: Option<SpawnCmdKind>)
    ensures
        kind == spec_spawn_cmd_kind(name@, has_angle, has_start_pos, has_a),
        name@ == "bullet"@ ==> (kind == Some(SpawnCmdKind::Bullet) <==> !has_angle),
        kind == Some(SpawnCmdKind::BulletAngleStart) ==> name@ == "bullet"@ && has_angle && has_start_pos,
        kind == Some(SpawnCmdKind::BulletAngleEnd) ==> name@ == "bullet"@ && has_angle && !has_start_pos,
{
    if str_eq(name, "bullet") {
        if has_angle {
            if has_start_pos {
                Some(SpawnCmdKind::BulletAngleStart)
            } else {
                Some(SpawnCmdKind::BulletAngleEnd)
            }
        } else {
            Some(SpawnCmdKind::Bullet)
        }
    } else if str_eq(name, "laser") {
        if has_a {
            Some(SpawnCmdKind::LaserThruPoints)
        } else {
            Some(SpawnCmdKind::Laser)
        }
    } else if str_eq(name, "bomb") {
        Some(SpawnCmdKind::CircleBomb)
    } else if str_eq(name, "set_rotation_on") {
        Some(SpawnCmdKind::SetRotationOn)
    } else if str_eq(name, "set_rotation_off") {
        Some(SpawnCmdKind::SetRotationOff)
    } else if str_eq(name, "set_fadeout_on") {
        Some(SpawnCmdKind::SetFadeOutOn)
    } else if str_eq(name, "set_fadeout_off") {
        Some(SpawnCmdKind::SetFadeOutOff)
    } else if str_eq(name, "set_render_warmup") {
        Some(SpawnCmdKind::SetRenderWarmup)
    } else if str_eq(name, "set_render") {
        Some(SpawnCmdKind::SetRender)
    } else if str_eq(name, "set_hitbox") {
        Some(SpawnCmdKind::SetHitbox)
    } else if str_eq(name, "clear_enemies") {
        Some(SpawnCmdKind::ClearEnemies)
    } else {
        None
    }
}

/// A bullet command is an angle bullet exactly when its table has `angle`, and
/// then starts at `start_pos` exactly when the table has it; without `angle`
/// it is a plain bullet whatever other keys it has. The key `a` never changes
/// what kind of bullet it is, and an angle bullet needs the word "bullet" and
/// the key `angle`.
pub proof fn lemma_bullet_kind_by_keys(name: Seq<char>, has_angle: bool, has_start_pos: bool, has_a: bool, other_a: bool)
    ensures
        name == "bullet"@ ==> (spec_spawn_cmd_kind(name, has_angle, has_start_pos, has_a) == Some(SpawnCmdKind::Bullet)
            <==> !has_angle),
        name == "bullet"@ ==> (spec_spawn_cmd_kind(name, has_angle, has_start_pos, has_a) == Some(
            SpawnCmdKind::BulletAngleStart,
        ) <==> has_angle && has_start_pos),
        name == "bullet"@ ==> (spec_spawn_cmd_kind(name, has_angle, has_start_pos, has_a) == Some(
            SpawnCmdKind::BulletAngleEnd,
        ) <==> has_angle && !has_start_pos),
        name == "bullet"@ ==> spec_spawn_cmd_kind(name, has_angle, has_start_pos, has_a) == spec_spawn_cmd_kind(
            name,
            has_angle,
            has_start_pos,
            other_a,
        ),
        name == "bullet"@ && !has_angle ==> spec_spawn_cmd_kind(name, has_angle, has_start_pos, has_a)
            == spec_spawn_cmd_kind(name, has_angle, !has_start_pos, other_a),
        (spec_spawn_cmd_kind(name, has_angle, has_start_pos, has_a) == Some(SpawnCmdKind::BulletAngleStart)
            || spec_spawn_cmd_kind(name, has_angle, has_start_pos, has_a) == Some(SpawnCmdKind::BulletAngleEnd))
            ==> name == "bullet"@ && has_angle,
{
}

/// How many beats of warmup an enemy of a command kind shows before it turns
/// active: lasers and bombs warm up for 4 beats, bullets and the group
/// settings not at all.
pub open spec fn spec_warmup_beats(kind: SpawnCmdKind) -> nat {
    match kind {
        SpawnCmdKind::Laser | SpawnCmdKind::LaserThruPoints | SpawnCmdKind::CircleBomb => 4,
        _ => 0,
    }
}

impl SpawnCmdKind {
    /// How many beats before its own start time a command is scheduled, so
    /// that its enemy's warmup ends exactly at the start time: the warmup of
    /// lasers and bombs, 4 beats; 0 for every other command.
    pub fn warmup_beats(&self) -> (beats: u8)
        ensures
            beats == spec_warmup_beats(*self),
            beats == 4 <==> (*self == SpawnCmdKind::Laser || *self == SpawnCmdKind::LaserThruPoints || *self
                == SpawnCmdKind::CircleBomb),
            beats == 0 || beats == 4,
    {
        match self {
            SpawnCmdKind::Laser => 4,
            SpawnCmdKind::LaserThruPoints => 4,
            SpawnCmdKind::CircleBomb => 4,
            _ => 0,
        }
    }
}

/// Only the two laser kinds and the bomb warm up, for 4 beats; every bullet
/// kind and every group setting is scheduled at its own start time.
pub proof fn lemma_only_lasers_and_bombs_warm_up(kind: SpawnCmdKind)
    ensures
        spec_warmup_beats(kind) == 4 <==> (kind == SpawnCmdKind::Laser || kind == SpawnCmdKind::LaserThruPoints || kind
            == SpawnCmdKind::CircleBomb),
        !(kind == SpawnCmdKind::Laser || kind == SpawnCmdKind::LaserThruPoints || kind == SpawnCmdKind::CircleBomb)
            ==> spec_warmup_beats(kind) == 0,
{
}

/// A command read from a chart is scheduled early exactly when its word is
/// "laser" or "bomb", by 4 beats, whatever keys its table has; a bullet, with
/// or without an angle, and every group setting is not scheduled early.
pub proof fn lemma_warmup_by_word(name: Seq<char>, has_angle: bool, has_start_pos: bool, has_a: bool)
    requires
        spec_spawn_cmd_kind(name, has_angle, has_start_pos, has_a) is Some,
    ensures
        spec_warmup_beats(spec_spawn_cmd_kind(name, has_angle, has_start_pos, has_a).unwrap()) == if name == "laser"@
            || name == "bomb"@ {
            4nat
        } else {
            0nat
        },
{
    reveal_strlit("bullet");
    reveal_strlit("laser");
    reveal_strlit("bomb");
    assert("bullet"@.len() != "laser"@.len());
    assert("bullet"@.len() != "bomb"@.len());
    assert("laser"@.len() != "bomb"@.len());
}

/// The easings that a chart file names with a word.
#[derive(PartialEq, Eq, Structural, Debug, Clone, Copy)]
pub enum EasingWord {
    Constant,
    Linear,
    Exponential,
}

/// The easing that the word `name` names, if any.
pub open spec fn spec_easing_word(name: Seq<char>) -> Option<EasingWord> {
    if name == "constant"@ {
        Some(EasingWord::Constant)
    } else if name == "linear"@ {
        Some(EasingWord::Linear)
    } else if name == "exponential"@ {
        Some(EasingWord::Exponential)
    } else {
        None
    }
}

/// The easing that the word `name` names: "constant", "linear" or
/// "exponential"; `None` for any other word.
pub fn easing_word(name: &str) -> (word: Option<EasingWord>)
    ensures
        word == spec_easing_word(name@),
{
    if str_eq(name, "constant") {
        Some(EasingWord::Constant)
    } else if str_eq(name, "linear") {
        Some(EasingWord::Linear)
    } else if str_eq(name, "exponential") {
        Some(EasingWord::Exponential)
    } else {
        None
    }
}

/// The colors that a chart file names with a word.
#[derive(PartialEq, Eq, Structural, Debug, Clone, Copy)]
pub enum ColorWord {
    Red,
    Green,
    Blue,
    Black,
    White,
    /// White with no opacity.
    Transparent,
    /// Black with no opacity.
    TransparentBlack,
}

/// The color that the word `name` names, if any.
pub open spec fn spec_color_word(name: Seq<char>) -> Option<ColorWord> {
    if name == "red"@ {
        Some(ColorWord::Red)
    } else if name == "green"@ {
        Some(ColorWord::Green)
    } else if name == "blue"@ {
        Some(ColorWord::Blue)
    } else if name == "black"@ {
        Some(ColorWord::Black)
    } else if name == "white"@ {
        Some(ColorWord::White)
    } else if name == "transparent"@ {
        Some(ColorWord::Transparent)
    } else if name == "transparent_black"@ {
        Some(ColorWord::TransparentBlack)
    } else {
        None
    }
}

/// The color that the word `name` names; `None` for an unknown word.
pub fn color_word(name: &str) -> (word: Option<ColorWord>)
    ensures
        word == spec_color_word(name@),
{
    if str_eq(name, "red") {
        Some(ColorWord::Red)
    } else if str_eq(name, "green") {
        Some(ColorWord::Green)
    } else if str_eq(name, "blue") {
        Some(ColorWord::Blue)
    } else if str_eq(name, "black") {
        Some(ColorWord::Black)
    } else if str_eq(name, "white") {
        Some(ColorWord::White)
    } else if str_eq(name, "transparent") {
        Some(ColorWord::Transparent)
    } else if str_eq(name, "transparent_black") {
        Some(ColorWord::TransparentBlack)
    } else {
        None
    }
}

/// Whether a position word names the player's position: only "player" does.
pub fn is_player_word(name: &str) -> (res: bool)
    ensures
        res == (name@ == "player"@),
{
    str_eq(name, "player")
}

} // verus!
