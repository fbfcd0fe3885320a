# tarry

Block until a condition holds (an HTTP endpoint, a TCP port, a file, a
command, a GitHub Actions run), then print one compact verdict.

- `src/` is the library, verified with Verus: the poll engine as a state
  machine, what each condition concludes from what the outside world
  answered, the `gh` arguments and output parsing, the verdict and its
  renderings, the command-line defaults, and the machine-readable contract
  (`tarry schema`). Laws that span functions stand there as proof functions
  named `lemma_*`.
- `app/` is the command: argument parsing, the network, files, processes and
  the clock, driving the library.
- `tests/` runs the library on concrete values.

Exit codes: 0 met, 1 timeout, 2 condition failed, 3 usage, 4 environment.
