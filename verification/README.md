# pseudo3d

A Wolfenstein-style raycaster (OpenGL 3.3, DDA in the fragment shader). Its
integer logic (resource handles and stores, the map format, the handling of
configuration and texture files around the `toml` and `image` crates, the key
buffer and the bookkeeping of music buses and loop channels) is a
Verus-verified library, which trusts those two crates' parsers through small
wrappers whose contracts say what it relies on; rendering, movement, audio playback and every
floating-point computation are ordinary, unverified Rust in `app/`.

- `src/` — the verified library: typed resource handles and stores, the map
  file format and the collision mask, the configuration files (parsed with
  toml), texture decoding (with image), the built-in grid level, the music-bus
  and loop-channel bookkeeping of the audio engine, the mixer state, and the shader sources.
  Laws (`law_*` proof functions) state what holds across calls.
- `tests/` — tests of the library on concrete values.
- `app/` — the program: window and GL context (winit, glutin, glow), audio
  (kira), reading asset files from disk, and the floating-point parts
  (camera, movement, head bob, spatial audio, vignette).

At run time the assets directory is found next to the executable, or where
`PSEUDO3D_ASSETS` points.
