# rock_run

The rules of Rock Run, Rose's Odyssey, a 2D platformer for young readers:
the levels' maps of screens and the camera that moves over them, the story
messages with their syllables and selections, the enigmas (sums, doubles,
differences, halves, multiple choice questions) and what a right answer
opens, the menus and game states, the player's states and animations, the
beasts' decisions, the moving platforms, vines, gates and hazards.

Everything under `src/` is verified with Verus: each public function states
what it returns in its `ensures`, and the laws of the game (messages come in
order, a vine grows to its size, a gate rises for a fixed number of frames,
the drawn enigmas can always be answered, a map's screens never overlap...)
are proof functions.

- `src/` the verified library, one module per part of the game.
- `tests/` tests of the library on concrete values.
- `app/` a small driver: settings from the environment, the story box and
  the menu run from lines of the standard input, the selections' JSON
  through serde, and the floating-point motion that the library leaves out.
