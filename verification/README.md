# bevy_easy_portals

Easy-to-use portals for Bevy.

- `src/` is the verified library (Verus). It decides, over plain values, what the Bevy
  systems do: the portal component's fields and builders (`portal`), the size of a
  camera's view (`viewport`), how a portal camera and its render image are set up and
  resized (`camera`), and where pointer inputs are sent through portals (`picking`).
- `app/` is the Bevy side: components, plugins, observers and systems that read the ECS
  world, call the library, and write the results back. The floating-point transform and
  projection maths, the material and the debug gizmos live there.
- `tests/` runs the library on concrete values.
