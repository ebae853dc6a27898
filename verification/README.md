# butter

The core of a small 2D game engine, written in Verus and verified.

`src/` holds the engine's logic with its contracts and proofs:

- `genmap`: a generational map; handles to removed items stay invalid.
- `scene_manager`: node ids, nodes, and the scene tree: parent and child
  links kept consistent and acyclic, post-order walks of subtrees and
  the drawing order, instantiation of scene templates, queueing a
  subtree for freeing, component readiness and lookup by script name.
- `event_manager` and `input_manager`: window events and their
  translation, key names and codes, and the per-frame key states.
- `asset_manager`: texture descriptions, texture references
  (`image:<path>`, `script:<path>`) and the registry that loads each image
  file once.
- `settings`: engine versions (`major.minor.patch`, written and read back)
  and the defaults of the project settings.
- `math`: integer matrices and vectors.
- `engine`: the frame-level decisions: the collider-outline toggle and
  the fixed physics steps.

`app/` is the program around it: reading `project-settings.toml`, the
float transforms and matrices of the renderer, and the frame loop's glue.
`tests/` exercises the library on concrete values.
