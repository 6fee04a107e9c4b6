# compute_worker

The verified core of a finite compute benchmark worker, written in Rust and proved with Verus.

A session is given a request (which samples to take) and a workload (the cases to take them of).
The library decides which requests and workloads are accepted, works out the accounts and
transactions that a case describes, holds what their execution did against the expected outcomes,
and answers each sample with one record, in order. It also fixes the JSON notation of what is hashed
and of the ledger.

- `src/` is the library. `session` is the entry point: it says what to do next and is told what was
  done. `request` and `workload` accept or refuse input, `prepare` and `execute` stand before and
  after the interpreter, `inspector` counts, `outcomes` compares, `record` and `json` write.
  `primitives`, `hex`, `text`, `order`, `sorted_map`, `state` and `digest` carry these.
- `tests/` runs the library.
- `app/` is the program around it: command line, files, and the interpreter (evm2).

Functions named `law_...` are proofs of what holds across functions.
