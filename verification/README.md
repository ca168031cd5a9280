# edict (verified core)

The bookkeeping core of an entity-component-system, written in Verus.

- `src/entity/`: entity ids, id ranges and the id allocator (unique ids,
  reservations that can be flushed in order), the entity set that maps ids
  to archetype locations (backed by a `hashbrown` map), weak references,
  and the decisions of the concurrent drop queue.
- `src/borrow.rs`: the atomic shared/exclusive borrow lock and its state
  machine.
- `src/hash.rs`: no-op and multiplicative hashers.
- `src/dump/`: the per-entity record of present and modified components,
  the load decisions taken from it, and its binary encoding with
  `nanoserde`.
- `src/archetype.rs`: archetype bookkeeping: entity slots moved by
  swap-remove, and change-tracking epochs per component, chunk and slot
  that travel with an entity when it moves between archetypes.
- `src/bundle.rs`: decisions of the entity builder.
- `src/action/`: buffers of deferred actions.
- `src/flow/`: handles and futures used by flows.
- `src/ptr.rs`, `src/marker.rs`, `src/pinned.rs`,
  `src/query.rs`, `src/executor.rs`, `src/epoch.rs`: smaller pieces.
- `app/`: what runs around the library: hashing of any `Hash` value, the
  yield future, and the drop queue's shared memory.
