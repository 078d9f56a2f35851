# pgrx-bindgen

Generates the Rust bindings for the headers of a PostgreSQL installation.

`src/` is the verified library. It decides and computes; it does no I/O.

- `target`, `version`, `origin`, `cargo`: which installation a build is for, where its bindings
  come from, and the lines that a build script prints.
- `options`, `callbacks`, `enums`: how C headers are read, and what is kept of the enumerations
  met on the way.
- `linkage`: how the foreign items of a file are linked, and which calling conventions it gets.
- `items`, `oids`, `graph`, `nodes`, `rewrite`: from the text that bindgen gives to the sources of
  the bindings. `graph` holds the inheritance between structs, and the search for the structs that
  derive from PostgreSQL's nodes.
- `archive`: the archive in which generated bindings are kept.
- `text`, `ordered`: text, and maps that are walked in the order of their names.

What is taken from other crates without proof stands behind a few functions, each with a comment
that says what is claimed of it: `syn::parse_file` in `items`, the walks of `syn` over a file in
`linkage`, `regex::escape` and `shlex::split` in `options`, the reader and the writer of `zip` in
`archive`, `String::push` in `text`.

`app/` is the program around the library: it runs `pg_config`, bindgen and the C compiler, lays out
sources and writes files. It reads `pg13.h` to `pg17.h` and `cshim.c` from a directory `assets`.
