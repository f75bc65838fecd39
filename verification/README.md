# FuzzerK

A fuzzing helper library and program, verified with Verus.

Fuzzers generate data (fixed strings in a loop or at random, random bytes,
random picks from a set of bytes, random changes to given buffers); fuzz
chains put their outputs together into data of a required pattern. A config
file sets up named fuzzers and chains, and a small assembly like script,
run by a virtual machine, drives the chains and writes what they generate to
io bridges (console, tcp, tls, file).

## Layout

- `src/` the verified library
  - `fuzz.rs`, `fixed.rs`, `random.rs`, `lib.rs`: the fuzzers and fuzz chains
  - `cfgfiles.rs`, `rtm.rs`: the config file format and the manager of the
    fuzzers and chains it sets up
  - `vm.rs`, `vm/`: the virtual machine: operands (`datam.rs`, `xopdata.rs`),
    values (`datas.rs`), instructions and their compiling (`ops.rs`), what
    they do when they run (`run.rs`), programs and steps (`prg.rs`)
  - `iob.rs`: the decisions behind opening an io bridge
  - `cmdline.rs`: the command line
  - `text.rs`, `datautils.rs`, `strmap.rs`, `rng.rs`: helpers
- `tests/` tests of the library
- `app/` the program: reading files, the io bridges, and the loop that runs
  the machine and does the io it asks for
