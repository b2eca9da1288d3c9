# cbuild

Compiles C, C++ and MASM sources into a static library for a Cargo build
script, the way the `cc` crate does. The library under `src/` computes every
command line, file name and Cargo directive from a `Build` description and
proves, with Verus, that they are what its contracts state; `app/` runs them.

- `src/builder.rs`: `Build`, its model `BuildView`, the compile, preprocess
  and flag-probe command lines, and the link directives.
- `src/flags.rs`: optimisation, standard and flag translation for GNU-like and
  MSVC-like drivers.
- `src/library.rs`: library and archive names, object names, archiver runs.
- `src/plan.rs`: the order of the steps that make the library (rerun
  directive and compile command per source, archiver runs, link directives).
- `src/tool.rs`: the driver (`Tool`) and the search for one (`CompilerSearch`).
- `src/path.rs`, `src/text.rs`: file names, extensions and string helpers.
- `app/`: environment variables, temporary files, processes, and the
  floating-point distance kernels, which Verus cannot reason about.
