# visual

The verified core of a small rhythm game in which the player dodges bullets,
lasers and bombs that a song's chart spawns to the beat.

`src/` holds the logic that is proved with Verus:

- `keyboard.rs`, `util.rs`: remembered key state and the direction that the
  held movement keys give, with its unit step.
- `level.rs`: the level-select menu and its wrapping cursor.
- `scene.rs`: what a key press does in the menu and in a level.
- `chart.rs`: the scheduler that releases a chart's actions in time order.
- `enemy.rs`: the stages of an enemy's life and the groups that hold enemies.
- `midi.rs`: reading MIDI files (through `midly`) and turning a track into
  notes, grouped by runs of equal keys.
- `parse.rs`: the words of the chart format.

`app/` is the game around it: ggez windowing and drawing, kira audio, rlua for
the Lua chart files, and all floating-point geometry and timing.
`tests/` exercises the library.
