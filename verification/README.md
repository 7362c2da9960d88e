# cargo-vendormod

Git submodule vendoring for Cargo workspaces: reading `.gitmodules` and
`Cargo.lock` files, building a global dependency graph with its build
orders, cycles, partitions and pictures, generating Nix flakes and
lockfiles, fixing workspace manifests, and reporting failed builds.

## Layout

- `src/` is the library, written in Verus. Every function there carries a
  `requires`/`ensures` contract over mathematical models (`Seq`, `Map`,
  views of the data types) and is proved against it. Calls into outside
  crates (`toml_edit`, `toml`, `petgraph`, `regex`, `num-bigint`, `dirs`,
  `num_cpus`) sit behind small trusted wrappers whose contracts name what
  the call returns; the laws of the library stand as public proof
  functions.
- `app/` is the `cargo-vendormod` command line: argument handling, file,
  process and network work, serde copies of library types, and the
  floating-point reports (coverage, partition measures).
- `tests/` runs the library on concrete inputs.

## Commands

`init-config`, `ingest`, `flake-check`, `lockfiles`, `aggregate-flake`,
`data-flow`, `tool-catalog`, `build-errors`, `partition-graph`,
`visualize-graph`, `metadata-graph`, `workspace-members`, `fix-edition`,
`fix-toolchain`.
