# tnua_integration

Verified decision logic for the physics backends of a Bevy character
controller (avian3d and bevy_xpbd_2d).

- `src/` is the library, checked with Verus:
  - `toggle`: which per-entity work a `TnuaToggle` allows.
  - `layers`: collision-layer interaction, calling each engine's `CollisionLayers`.
  - `contact`: whether an existing contact makes the sensor skip a hit.
  - `sensing`: hit classification and the proximity sensor's reading, by distance
    along the cast (nearest tangible collider, and the ghost platforms before it).
  - `motors`: which parts of each entity's motor are applied.
- `tests/` runs the library on concrete values.
- `app/` holds the Bevy plugins and systems, which read the engines, hand the
  library plain values and write back what it decides.
