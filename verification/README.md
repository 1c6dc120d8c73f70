# package_manager

The verified core of a WebAssembly package manager, written in Verus.

- `src/` is the library. Every function in it carries a contract that Verus
  proves, except a few `#[verifier::external_body]` wrappers around calls
  into `semver`, `serde_json` and `oci_client`, whose contracts are trusted.
  The contracts cover the manifest's dependencies and the versions they ask
  for, the classification of OCI tags into releases, signatures and
  attestations, known packages and stored images with their references, the
  rows that the image queries select, which database migrations still have to
  run, how a migration script is cut into statements, how the size of the
  store directory is counted, and the decisions of the development server
  loop. Laws that relate several functions are stated as `law_*` proof
  functions beside the code they speak of.
- `app/` holds what Verus does not check: the SQLite store (through SeaORM),
  the serde form of the manifest, the web footer, and the developer commands
  that spawn processes. It calls the library for every decision.
- `tests/` runs the library on concrete values.
