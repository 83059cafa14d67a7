# sbepis

The rules of a first-person movement-and-questing game, written in Verus and
proved against their contracts: quests and their progress, weapon sets,
movement timers, combat targeting, skybox assembly and a few world-generation
decisions.

Layout:

- `src/` is the verified library. Each module states its model with spec
  functions and proves its laws as public proof functions.
  - `questing` — quest kinds, progress, the quest board and quest givers.
  - `weapons` — cycling through a weapon set.
  - `movement` — trip, hit-stop, dash, jump and charge timers, counted in
    whole nanoseconds.
  - `combat` — finding the character that owns a hit collider, attack input.
  - `skybox` — load state of the six sides and stitching their pixel data.
  - `indicators`, `worldgen` — debug overlay text and placement of points of
    interest.
  - `draws`, `text` — decimal and UUID text, and the calls into `rand` and `uuid` that
    the rules rely on, with the contracts they are trusted to meet.
- `tests/` runs the library on concrete values.
- `app/` is the engine glue (Bevy systems, rendering, physics and the
  floating-point tuning of movement), which calls into the library for its
  decisions. It is not verified.
