# hatcher

The verified core of the HatcherLabs neural mesh.

- `src/` is the library, verified with Verus:
  - `memory`: the memory graph (ordered, duplicate-free nodes and edges);
  - `agents`: agent roles, execution modes, model descriptions;
  - `neural`: mesh shape and backend, and the integer and text parts of an
    evaluation (winning score index, action, rationale, trace id);
  - `playground`: arenas, battles and battle reports;
  - `console`: console command parsing and telemetry status;
  - `envelope`: the codec, schema version and FNV-1a digest that seal a
    serialized node;
  - `text`: decimal and hex digits, whitespace trimming and ASCII lowercase.
- `app/` is the terminal program and HTTP API: floating-point scoring, JSON,
  the warp server and console I/O, calling into the library.
- `tests/` exercises the library.
