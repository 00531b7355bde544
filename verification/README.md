# alto_coro

The rules of an Alto chain that one sequencer writes and publishes to Celestia, and of the
validators and followers of an Alto network, as a verified Rust library.

- `src/` is the library. Every function states what it returns or changes, and Verus proves
  it. Proof functions named `law_…` state what holds across functions: that a replica
  applies what the sequencer built, that an archived block is served as it was encoded, that
  a publication is not given up before it was recorded, and the like.
- `app/` is the program around it: the command line, files, HTTP, Celestia, the network and
  the tasks that run the library's decisions.
- `tests/` runs the library on concrete values.

The library takes plain values. What an Alto block looks like on the wire is handed to it as
functions that encode, decode and seal a block. Hashes, keys, hexadecimal text, wire numbers
and the priority set of the upload bookkeeping come from the `commonware` crates; what is
believed of them stands in the doc comments of the functions that call them.
