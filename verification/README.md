# umadev

The verified core of the UmaDev terminal assistant, written in Verus.

- `src/` is the library. Every function in it is verified against its
  `requires` / `ensures`; laws that relate several functions are public proof
  functions named `law_*`. Calls into outside crates (`unicode-segmentation`,
  `base64`, `getrandom`) and into a few std functions without a vstd
  specification go through small `#[verifier::external_body]` wrappers whose
  doc comments say what is assumed of them.
- `app/` is ordinary Rust around the library: file and process I/O, threads,
  serde formats. Where a loop alternates I/O and decisions, the library holds
  the decisions as a step function and `app/` performs the actions it asks
  for. `app/` is a thin shell, not a complete one: it reads and writes files
  through plain `std::fs` (checking each listed name and entry kind with the
  library), and it leaves out the capability-based rooted-directory layer,
  the lifecycle transactions' file work and the native Windows clipboard.
- `tests/` run the library on concrete values.
