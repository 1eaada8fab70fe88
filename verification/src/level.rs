//! The level-select menu.
use std::path::PathBuf;

use vstd::prelude::*;

verus! {

/// A path on the file system, as `std::path::PathBuf` holds it.
#[verifier::external_type_specification]
#[verifier::external_body]
pub struct ExPathBuf(PathBuf);

/// Calls `<PathBuf as Clone>::clone`, which copies the path; the copy is
/// claimed to equal the original.
#[verifier::external_body]
fn clone_path(path: &PathBuf) -> (res: PathBuf)
    ensures
        res == *path,
{
    path.clone()
}

/// A playable level: its display name and the folder that holds its files.
#[derive(Debug)]
pub struct Level {
    name: String,
    map_folder: PathBuf,
}

impl Level {
    /// The level's display name.
    pub closed spec fn spec_name(&self) -> Seq<char> {
        self.name@
    }

    /// The folder that holds the level's files.
    pub closed spec fn spec_map_folder(&self) -> PathBuf {
        self.map_folder
    }

    /// A level named `name` whose files are in `map_folder`.
    pub fn new(name: String, map_folder: PathBuf) -> (level: Level)
        ensures
            level.spec_name() == name@,
            level.spec_map_folder() == map_folder,
    {
        Level { name, map_folder }
    }

    /// The level's display name.
    pub fn name(&self) -> (name: &String)
        ensures
            name@ == self.spec_name(),
    {
        &self.name
    }

    /// The folder that holds the level's files.
    pub fn map_folder(&self) -> (folder: &PathBuf)
        ensures
            *folder == self.spec_map_folder(),
    {
        &self.map_folder
    }
}

impl Clone for Level {
    fn clone(&self) -> (res: Level)
        ensures
            res.spec_name() == self.spec_name(),
            res.spec_map_folder() == self.spec_map_folder(),
    {
        Level { name: self.name.clone(), map_folder: clone_path(&self.map_folder) }
    }
}

/// The menu of levels, with the level that is currently selected.
#[derive(Debug)]
pub struct LevelSelect {
    levels: Vec<Level>,
    current_selection: usize,
}

impl LevelSelect {
    /// The selection is always a level of the menu, or 0 when the menu is empty.
    #[verifier::type_invariant]
    spec fn selection_in_menu(&self) -> bool {
        self.current_selection < self.levels@.len() || (self.levels@.len() == 0 && self.current_selection == 0)
    }

    /// The levels of the menu, in menu order.
    pub closed spec fn levels(&self) -> Seq<Level> {
        self.levels@
    }

    /// The index of the selected level.
    pub closed spec fn selection(&self) -> nat {
        self.current_selection as nat
    }

    /// A menu of `levels` with the first one selected.
    pub fn new(levels: Vec<Level>) -> (res: LevelSelect)
        ensures
            res.levels() == levels@,
            res.selection() == 0,
    {
        LevelSelect { levels, current_selection: 0 }
    }

    /// How many levels the menu holds.
    pub fn len(&self) -> (n: usize)
        ensures
            n == self.levels().len(),
    {
        self.levels.len()
    }

    /// The index of the selected level.
    pub fn current_selection(&self) -> (index: usize)
        ensures
            index == self.selection(),
    {
        self.current_selection
    }

    /// The menu has nothing to update between frames.
    pub fn update(&mut self)
        ensures
            final(self).levels() == old(self).levels(),
            final(self).selection() == old(self).selection(),
    {
    }

    /// Move the selection `delta` levels on, wrapping around at both ends of
    /// the menu.
    pub fn change_song(&mut self, delta: i32)
        requires
            old(self).levels().len() > 0,
            old(self).levels().len() <= i32::MAX,
            i32::MIN <= delta + old(self).selection() <= i32::MAX,
        ensures
            final(self).levels() == old(self).levels(),
            final(self).selection() == (delta + old(self).selection()) % (old(self).levels().len() as int),
    {
        proof {
            use_type_invariant(&*self);
        }
        let len = self.levels.len() as i32;
        let new_selection = delta + self.current_selection as i32;
        let wrapped = new_selection.checked_rem_euclid(len).unwrap();
        self.current_selection = wrapped as usize;
    }

    /// A copy of the selected level, or `None` when the menu is empty.
    pub fn current_level(&self) -> (res: Option<Level>)
        ensures
            res is Some <==> self.levels().len() > 0,
            res matches Some(level) ==> {
                &&& self.selection() < self.levels().len()
                &&& level.spec_name() == self.levels()[self.selection() as int].spec_name()
                &&& level.spec_map_folder() == self.levels()[self.selection() as int].spec_map_folder()
            },
    {
        proof {
            use_type_invariant(self);
        }
        if self.levels.is_empty() {
            None
        } else {
            Some(self.levels[self.current_selection].clone())
        }
    }
}

impl Default for LevelSelect {
    fn default() -> (res: LevelSelect)
        ensures
            res.levels().len() == 0,
            res.selection() == 0,
    {
        LevelSelect { levels: Vec::new(), current_selection: 0 }
    }
}

/// Moving the selection on and back again by the same amount returns to the
/// level that was selected, on a menu of `len` levels.
pub proof fn lemma_change_song_round_trip(len: int, selection: int, delta: int)
    requires
        0 <= selection < len,
    ensures
        0 <= (delta + selection) % len < len,
        (-delta + (delta + selection) % len) % len == selection,
{
    vstd::arithmetic::div_mod::lemma_add_mod_noop_right(-delta, delta + selection, len);
    vstd::arithmetic::div_mod::lemma_small_mod(selection as nat, len as nat);
}

/// Moving the selection on by a whole turn of the menu keeps it where it is.
pub proof fn lemma_change_song_full_turn(len: int, selection: int)
    requires
        0 <= selection < len,
    ensures
        (len + selection) % len == selection,
        (-len + selection) % len == selection,
{
    vstd::arithmetic::div_mod::lemma_mod_multiples_vanish(1, selection, len);
    vstd::arithmetic::div_mod::lemma_mod_multiples_vanish(-1, selection, len);
    vstd::arithmetic::div_mod::lemma_small_mod(selection as nat, len as nat);
}

} // verus!
