# novella

The kernel of Novella, a tool for writing fiction: projects, manuscripts and
their progressions, an entity–component store for the things of a story,
family relationships between persons, a virtual file system for a project,
editable text, and a general time system. The library in `src/` is verified
with Verus; its calls into outside crates and into parts of std that Verus
has no specification for go through a few trusted wrappers, each documented
with what its contract claims.

## Layout

- `src/common/` – type identifiers, random identifiers, snake case, text
  split into lines and (line, column) locations.
- `src/nvcore/` – projects, manuscripts and progressions; the time system
  (`khronos`); maps; binary storage descriptors; the action system (the
  actions on the entity manager, their undoing, the action manager and its
  cursor, and requests); the engine state (`mir`); the
  component registry (`registry`); editable text (`text_edit`).
- `src/nvcore/ecs/` – the entity–component system: signatures, component
  stores, the storage, the entity manager, queries, archetypes,
  relationships, and the graph of family relationships (`kin`), which runs
  on `petgraph`.
- `src/kernel.rs` – the entity manager with bit signatures.
- `src/nvfs.rs` – the virtual file system and the statements of the project
  database.
- `src/csl.rs` – a small directed graph.
- `app/` – what stays outside the proofs: the SQLite database, bincode and
  JSON encodings, and moments of time in floating point.
- `tests/` – the tests, run against the compiled library.

Laws that span several functions are stated as public proof functions whose
names begin with `law_`.
