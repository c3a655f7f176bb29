# hell_workers_jobs

The job and lighting rules of Hell Workers, verified with Verus.

- `src/` is the library. Every decision of the deconstruction protocol
  (designation, cancel and commit requests, owner validation, facility
  recovery), of construction (floor and wall sites, blueprint and site
  cancellation, building completion, Soul Spa delivery and cancellation),
  of doors, and of indoor lighting (input collection, the runtime's epochs
  and fail-dark states, room illumination summaries) is an executable
  function with a contract over plain values. Laws that span several calls
  are public proof functions named `law_*`.
- `tests/` runs the library on concrete scenarios.
- `app/` holds the Bevy systems: each reads the world into the library's
  facts, asks the library, and applies the answer.
