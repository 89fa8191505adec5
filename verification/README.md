# furnace

A level editor for Northstar (Titanfall 2): meshes are placed from game
scripts, saved to a `.furnace` file, turned into box brushes and written as a
`.map` file for the map compiler.

- `src/` is the verified library (Verus): the brush geometry (`mesh`), the
  `.furnace` and `.map` texts and the `.furnace` reader (`map_info`), what the
  reader gives back of a written text (`round_trip`), the editor state
  (`furnace`), file names and the compiler command line (`compile`), texture
  shorthands (`textures`), the base64 transfer between script contexts
  (`transfer`), the window's text fields (`ui`), and string helpers (`text`).
- `app/` is the plugin around it: script function registration, file and
  process I/O, the in-game panel and window, and the float arithmetic on
  coordinates (rounding, ordering, moving, formatting and parsing numbers).
- `tests/` runs the library on concrete values.
