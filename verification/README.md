# enclave_runner

A task runner that takes tasks from a Redis queue, runs each task's container (or
WebAssembly component), records task logs in Postgres and writes the result back to
the queue.

- `src/` is the verified library (Verus): configuration defaults and sources, task log
  records, measurement reports, the step-by-step decisions of handling a task and of a
  container run, line buffering of a component's output, the conversion of task
  parameters into component-model values, and the reading of a component's result.
- `app/` is the program around it: configuration loading, logging, the queue server,
  the database, the container engine, the gRPC registry client and the Wasm runtime.
  It performs the actions the library decides and reports their outcomes back.
- `tests/` exercises the library on concrete values.
