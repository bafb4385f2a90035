# iwm_runtime_core

The deterministic core of an IWanna GM8 runtime, as a Verus-verified library:
the parts of the runtime whose rules can be stated over integers, strings and
sequences, each with a contract, and the laws that tie them together.

Numbers of the game (positions, speeds, GML number values) are a type
parameter `N` of the model; the library never inspects them. What depends on
floating point, and what talks to the host, lives in `app/`.

## Layout

- `src/model.rs` — instances, rooms, views, object definitions, sprites, package.
- `src/lowered.rs` — lowered GML code, and which code queries the jump button.
- `src/host_files.rs` — which code reaches the host's file functions, through
  scripts, and the creation-code calls the host runs once files are available.
- `src/event_dispatch.rs` — the object hierarchy, event lookup along it,
  collision targets, instance indexes, grid cells, alarm keys, event tags.
- `src/spatial_index.rs` — the collision spatial index and its queries.
- `src/package_caches.rs` — tables built from a package: event blocks by tag,
  collision targets and matching objects, `place_meeting` names, the logic
  index, timelines, room order.
- `src/overlay.rs`, `src/context.rs`, `src/instance_updates.rs`,
  `src/eval_context.rs` — pending instance updates, the local scope, binary
  files, and the room as expression evaluation sees it.
- `src/room_transitions.rs`, `src/room_builder.rs`, `src/render.rs`,
  `src/helpers.rs`, `src/names.rs`, `src/diagnostics.rs`, `src/text.rs` —
  persistent instances, sprite metrics, views and colours, players and spawn
  checks, GML names, diagnostics, and string helpers.
- `src/frame.rs` — the render frame: clear, background layers, tiles and
  sprites by descending depth, draw-event commands, foreground, present.
- `src/tick.rs` — the order of work in a tick, as a machine from what was
  observed to the next action, and the keyboard events of a tick.
- `src/statements.rs`, `src/player.rs` — what a statement does (apart from
  evaluating its expressions), how blocks and loops proceed, creation-code
  statements, and the player's run and jump decisions.
- `src/runtime_core.rs`, `src/scene_change.rs` — the runtime's state between
  ticks, and pending room changes, restarts and resets.
- `src/step_events.rs`, `src/collision.rs`, `src/creates.rs` — which instances
  a step pass runs, the collision queries, hit order and responses, and the
  queue of instance creations.
- `src/event_run.rs` — the order in which an event's code blocks and their
  statements are run on an instance, up to a scene change, as a machine.
- `app/` — `f64` value semantics, collision geometry, the player's motion,
  the sprite values a frame draws, loops that drive the tick and event-run
  machines for a caller that supplies the work (generic over it; nothing in
  this crate supplies it), and the host glue. The expression evaluator and
  statement execution themselves are not here.
- `tests/` — tests of the library on concrete values.

Laws are public proof functions named `law_*`.
