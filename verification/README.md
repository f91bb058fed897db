# iii_core

The decision logic of the iii engine, its SDK and its worker tooling, written
in Verus and proved against its contracts.

- `src/` is the verified library. Each module states what its functions
  return over mathematical models (`Seq`, `Map`, the `Json` model of a JSON
  value) and proves it; public proof functions state the laws that relate
  several functions (read-after-write of the configuration store, the
  watcher keeping the store in line with the directory, redaction hiding
  every secret, instance names being distinct, and so on).
- `tests/` runs the library on concrete values.
- `app/` is the ordinary Rust around it: conversion between `serde_json`
  values and the library's JSON model, the process environment, the
  OpenTelemetry hooks (global propagation and tracer provider, span
  processor, baggage in the current context) and the `Display` of sandbox
  errors, which writes the JSON text the library produces.

Calls into outside crates (`uuid`, `opentelemetry`, `serde_json`,
`jsonschema`, a few `std` functions
without a Verus specification) go through small trusted functions whose
doc comments say what is assumed of them.
