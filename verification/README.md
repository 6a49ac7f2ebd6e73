# lexicon_reaper

A terminal roguelike where you fight by spelling words on a board of letter
tiles.

- `src/` is the verified library: the board and its selection rules, the
  dictionary trie, combat resolution, equipment, the shop, run statistics,
  stage and enemy generation, the pixel sprites and the game's flow from
  screen to screen (`app.rs`), each function with its contract.
- `tests/` exercises the library on concrete values.
- `app/` is the program around it: the terminal loop and drawing, saving and
  loading, definition look-ups over the network (the answer is read into the
  library's entry types, which pick and shape the definition), the seeding
  of the random generator, and the floating-point damage roll and gem
  reward. It reads its word list from `assets/dictionary.txt`, looked for
  beside the sources, beside the executable, then in the working directory.
