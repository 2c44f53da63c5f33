# rusk

The core of the Rusk SDK, which builds Android APKs from Rust projects, written in
Verus: every function states what it returns or changes, and the statement is
proved.

- `src/` is the library. `manifest`, `lint`, `workspace` and `androidgen` read and
  write project descriptions; `ndk`, `sdkmgr` and `javadeps` decide what is fetched
  and verified; `incremental`, `jnigen`, `pipeline` and `buildrun` drive a build;
  `bundle`, `keystore`, `profile` and `symbolize` wrap the tools; `render`, `input`,
  `ndk_sys`, `tls`, `diagnostics`, `embed_jvm`, `jni_safe` and `sqlite` serve code
  on a device; `ui`, `color` and `cli` say what is shown. `text`, `num`, `path`,
  `ordmap`, `xml` and `digest` are what the others are made of.
- `app/` is the `rusk` command: files, network, processes and the NDK's C interface.
- `tests/` runs the library on concrete values.

The library never touches a file, a process or a clock. A function that needs to
know something of the outside world takes it as an argument, and one that wants
something done says so in its result.

What is believed without proof stands in `xml` (reading XML with `quick-xml`), in
`digest` (SHA-1 and SHA-256) and at the top of `text` (`String::push`).
