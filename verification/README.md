# cxx_dlang

The Rust side of a Rust <-> D bridge built on cxx, and the LDC2 build
pipeline that compiles and links the D half.

- `src/ffi.rs` holds the functions that D calls (`rust_greet`,
  `make_handle`, `handle_describe`), the shared `Greeting` struct and the
  opaque `RustHandle`, whose invariant is that it carries `rust-handle`.
- `src/build_plan.rs` holds every decision of the build pipeline, on plain
  values: the Rust-to-LDC2 triple table and the `--mtriple` choice (an
  `$LDC2_MTRIPLE` override always wins), `-mcpu` from the encoded rustflags,
  `-mattr` from the target features, the argument list of each LDC2 run with
  its safety previews, the `ldc2` search order ($DC, $LDC2_PATH, $PATH,
  `~/.dlang/ldc2-*`), the runtime directory candidates and the choice among
  them, and the link directives.
- `app/` holds what touches the outside: the `#[cxx::bridge]` module, and
  `build_pipeline::run`, which reads the environment and the file system,
  runs `ldc2` and the archiver, and prints cargo's directives. A consumer's
  `build.rs` calls it. The D sources (`d/*.d`, the `cxx_d` bindings) are D
  code and are not part of this crate.
- `tests/` exercises both modules on concrete values.
