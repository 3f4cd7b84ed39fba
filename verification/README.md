# SpiderBot

A simulator for a four-legged robot that walks across a map with obstacles.  The operator steers it
by hand, or lets a controller in another process navigate; boxes can be placed, dragged and climbed.

- `src/` is the library, verified with Verus: the robot's motion, the exchange with the controller,
  the map, the camera, the legs, the keys, buttons and panels, and the binary32 arithmetic that all
  of it is computed with.
- `tests/` runs the library, much of it against the machine's own floating point.
- `app/` is the program around it: the engine, the window, the files and the controller process.
  It reads `robot_config.json` and starts `python3 movement_policy.py --bridge`, which reads one
  JSON observation per line and answers with one JSON action per line.

`Cargo.toml` keeps the engine's rendering out, so that the library and its tests build quickly.  A
build of the program adds it: of `bevy` the features `bevy_winit`, `x11`, `bevy_pbr`,
`bevy_gizmos_render`, `bevy_ui_render` and `default_font`, and of `bevy_rapier3d` the feature
`debug-render-3d`.
