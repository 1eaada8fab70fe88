use std::path::PathBuf;

use visual::level::{Level, LevelSelect};

fn menu(n: usize) -> LevelSelect {
    let levels = (0..n)
        .map(|i| Level::new(format!("level {}", i), PathBuf::from(format!("levels/{}", i))))
        .collect();
    LevelSelect::new(levels)
}

fn selected_name(select: &LevelSelect) -> String {
    select.current_level().unwrap().name().clone()
}

#[test]
fn starts_at_first_level() {
    let select = menu(3);
    assert_eq!(selected_name(&select), "level 0");
    let level = select.current_level().unwrap();
    assert_eq!(level.map_folder(), &PathBuf::from("levels/0"));
}

#[test]
fn change_song_wraps_both_ways() {
    let mut select = menu(3);
    select.change_song(1);
    assert_eq!(selected_name(&select), "level 1");
    select.change_song(1);
    select.change_song(1);
    assert_eq!(selected_name(&select), "level 0");
    select.change_song(-1);
    assert_eq!(selected_name(&select), "level 2");
    select.change_song(7);
    assert_eq!(selected_name(&select), "level 0");
    select.change_song(-8);
    assert_eq!(selected_name(&select), "level 1");
}

#[test]
fn change_song_round_trip() {
    let mut select = menu(5);
    select.change_song(2);
    select.change_song(13);
    select.change_song(-13);
    assert_eq!(selected_name(&select), "level 2");
    select.change_song(5);
    assert_eq!(selected_name(&select), "level 2");
}

#[test]
fn empty_menu_has_no_level() {
    let select = LevelSelect::default();
    assert!(select.current_level().is_none());
    let mut select = menu(0);
    select.update();
    assert!(select.current_level().is_none());
}

#[test]
fn update_changes_nothing() {
    let mut select = menu(2);
    select.change_song(1);
    select.update();
    assert_eq!(selected_name(&select), "level 1");
}

#[test]
fn cloned_level_is_equal() {
    let level = Level::new("song".to_string(), PathBuf::from("a/b"));
    let copy = level.clone();
    assert_eq!(copy.name(), "song");
    assert_eq!(copy.map_folder(), &PathBuf::from("a/b"));
}

#[test]
fn current_selection_follows_change_song() {
    let mut select = menu(4);
    assert_eq!(select.current_selection(), 0);
    select.change_song(-1);
    assert_eq!(select.current_selection(), 3);
    select.change_song(2);
    assert_eq!(select.current_selection(), 1);
}
