# RayDrone

RayDrone renders drones by casting stochastic grains ("rays") at a focal point
of a recorded sample and letting their average converge. This crate holds the
engine's integer logic, specified and proved with Verus, and the
floating-point audio code around it.

## Layout

- `src/` — the verified library:
  - `prng` — the xorshift32 generator and seeding; a seeded stream never
    reaches the zero state.
  - `voices` — the voice pool (active list + free stack) and bounce depths;
    every slot is always either sounding or free, exactly once.
  - `music` — just-intonation voicings as exact ratios and the octave/degree
    split of semitone offsets.
  - `degrees` — stratum counter and the degree tables a grain picks its
    pitch from.
  - `piano` — keyboard layout, octave shift and 128-note masks (MIDI and
    on-screen keys).
  - `scenes` — built-in scene ids and how a saved scene reference is restored.
  - `ambient` — seed/depth settings and slots of the ambient constellation.
  - `bins`, `lab`, `delay` — analysis bins, lab sample bounds, ring cursors,
    shimmer taps and interpolation taps.
- `tests/` — tests of the library on concrete values.
- `app/` — the floating-point DSP (filter, materials, shimmer, reverb), the
  browser engine's C-ABI surface, and the VST3 / CLAP plugin shell.
