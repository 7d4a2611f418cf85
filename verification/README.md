# contain-rs

Schedule and manage docker and podman containers from Rust.

- `src/` is the library, verified with Verus: the container model and its
  builder, the command lines the engines receive, what the engines' answers
  mean, the wait strategies, the handle operations as a state machine, the
  parser of the container derive's attributes and the build steps it
  produces, and the ready-made images (postgres, surrealdb).
- `app/` runs the engine programs, follows logs through pipes, reads the
  engines' JSON with serde, and holds the derive front end on syn and quote.
- `tests/` exercises the library.
