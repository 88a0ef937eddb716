# objc2

Objective-C for Rust, verified with Verus.

- `src/config` holds the configuration that bindings to frameworks are made from: libraries,
  modules and declarations, what may be set where, which library may depend on which, and how
  typedefs and crates are named.
- `src/runtime` holds a picture of an Objective-C runtime as plain data, and what can be asked of
  it: selectors, classes and metaclasses, methods, instance variables, protocols and objects.
- `src/text.rs`, `src/bytes.rs` and `src/name_map.rs` are what both are built on.
- `app` reads configuration files, parsed headers and the live runtime, and hands them to the
  library as plain values.
- `tests` runs the library.

The contracts speak of mathematical models: text as sequences of characters, maps as maps from
names to values, classes as chains of superclasses. Calls into other crates, and a few into the
standard library, stand behind small trusted functions whose doc comments say what is claimed of
them.
