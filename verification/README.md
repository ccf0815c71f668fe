# trueshot_server

The decision logic of the TrueShot capture server as a verified library:
request checks, path and file-name rules, byte ranges, encryption-at-rest
formats and key wrapping, fusion report inspection, share links and cards,
storage and OAuth planning, scan-runner and calibration-session steps, and
the small parsers (PLY headers, range headers, legends) they rely on.

- `src/` — the library, verified with Verus. Each module states its
  functions' behaviour in `requires`/`ensures` over spec functions; laws that
  relate several functions are public proof functions. Calls into the cipher,
  encoding, hashing, UUID, MIME, URL-encoding and time crates go through small
  trusted wrappers whose contracts say what those crates document.
- `app/` — plain Rust around the library: key files, encryption markers and
  tree sweeps, fusion report JSON, settings from the environment, the process
  clock, and the floating-point image and calibration measures.
- `tests/` — tests run against the compiled library with the real crates.
