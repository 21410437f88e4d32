# axiom_core

The verified core of Axiom, a 2D game engine driven entirely through an HTTP
API. Every function in `src/` carries a Verus contract. All of them are proved
against their contracts except four small wrappers marked
`#[verifier::external_body]`, whose contracts are trusted: `String::push`
(`src/text.rs`), the system clock (`src/sanitize.rs`), rhai's script compiler
(`src/web_scripts.rs`) and image decoding (`src/screenshot.rs`).

## Layout

- `src/nav.rs` – breadth-first path finding on the tile grid, eight-way with no
  corner cutting; a found path is a legal walk with the fewest moves, and
  `None` is returned exactly when no walk exists; solid and spike tiles block
  movement, solid tiles block sight.
- `src/security.rs` – the API guard: token check (`Authorization: Bearer` or
  `X-API-Key`), client keys, and the per-client, per-second rate limiter with
  its pruning. With `AXIOM_API_RATE_LIMIT_PER_SEC` unset (or not a number)
  there is no rate limit.
- `src/ai.rs` – AI states, their saved form, and the per-frame decisions of
  patrol, chase, flee, guard and wander behaviours.
- `src/anim.rs` – animation clip stepping, frame events, velocity-driven state
  choice, graph summaries and the built-in animation graphs.
- `src/audio.rs` – sound and track registry, the playing track, trigger
  mappings and audio event commands.
- `src/flow.rs` – runtime state transitions, bounded logs, level packs,
  inventory actions and volume channels.
- `src/commands.rs` – the decisions taken when an API command runs: level
  and sprite-sheet checks, network id allocation, script-load bookkeeping,
  save-game loading, entity descriptions, animation-state requests, audio
  requests, bulk entity selection, tile layers and terrain materials, game
  evaluation and health checks, playtest and simulation plans, configuration
  overrides, generated placeholder assets, restoring network ids after a
  load, script budget settings, resets, path-follower scheduling, particle
  requests and what a saved entity records of its layers.
- `src/routes.rs` – the paths the HTTP API registers, with the proof that the
  API's documentation lists each of them.
- `src/entity_query.rs` – filtering of entity listings by query parameters.
- `src/exports.rs`, `src/web_scripts.rs` – planning of web and desktop
  exports, and the choice of scripts that can run on the web backend (Rhai).
- `src/docs.rs`, `src/docs_page.rs`, `src/examples.rs` – the API's
  self-description, the built-in example recipes, and the HTML documentation
  page.
- `src/screenshot.rs` – decoding screenshots, the average colour of each
  quadrant, and pixel differences against a baseline.
- `src/sanitize.rs`, `src/tiles.rs`, `src/order.rs`, `src/text.rs`,
  `src/api_types.rs` – names, tile summaries, string order and sorting, text
  helpers matching the standard library, request types and defaults.
- `app/` – the HTTP front (axum: documentation and asset routes), the guard
  middleware, serializable copies of the library's types, file output, and
  the floating-point glue (world positions, timers, volumes). The entity
  world that the other API commands act on is not part of this crate; the
  decisions those commands take are in `src/commands.rs`.
- `tests/` – tests of the library.
