# dapr_wasm

Verified logic of a set of image microservices built on WebAssembly and Dapr.

`src/` is the library, verified with Verus:

- `bytes`, `word`: little-endian encodings of integers.
- `param`, `ret`, `round_trip`, `call`: the calling convention between a host and
  a guest module: how parameters are laid out in guest memory, how results are
  decoded, the proof that a parameter reads back as itself, and the sequence of
  steps of a call (allocation, writes, invocation, deallocation).
- `split`, `decimal`, `text`: byte lists written as comma-separated decimal text,
  and string helpers.
- `codec`, `imaging`, `guest`, `host`: turning images into grayscale with the
  `image` crate, Base64 output, and both ends of the grayscale guest call.
- `classify`: reading a classifier's output and reporting the strongest class.
- `service`: request routing and response headers of the HTTP services.

`app/` holds the programs themselves (HTTP servers, database access, the WasmEdge
virtual machine), which use the library. `tests/` runs the library on concrete
values.
