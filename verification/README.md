# resolvo_rpm

RPM dependency resolution over the `resolvo` solver, with a library that is verified by Verus.

- `src/` is the library. `model.rs` says what a provider knows as mathematical values, and the
  functions of `RpmProvider` are specified over that model. `pool.rs`, `rpm_provider.rs`, `evr.rs`
  and `urls.rs` hold the contracts of the outside crates that the library builds on. Laws that
  relate several functions stand beside them or in `laws.rs` and `streaming.rs`.
- `app/` is the command line program: it reads repository documents, runs the solver, talks to
  the network and prints.
- `tests/` runs the library on concrete repositories, with the solver and without it.

| Module | What it holds |
| --- | --- |
| `package`, `evr` | packages, dependencies, version order |
| `pool`, `provides`, `index` | interned values and the index of who provides what |
| `provider`, `draft`, `virtuals` | adding packages, groups and advisories |
| `loader`, `comps`, `updateinfo`, `streaming` | receiving repository documents element by element |
| `solving`, `weak`, `sorting` | candidates, their order, hard and weak dependencies |
| `closure` | which requirements nothing satisfies |
| `query`, `detail`, `report`, `table` | advisories and tables as text |
| `fetch`, `urls`, `metadata` | downloading and verifying metadata |
| `rpm_provider` | a provider over dependencies as texts |
