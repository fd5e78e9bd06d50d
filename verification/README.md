# x86_asm_test

A harness that runs x86 assembly test files natively and records the
registers they leave.  A test file holds a JSON configuration between
`%ifdef CONFIG` and `%endif` lines (initial registers, execution mode, memory
regions and their contents) followed by the code.  The harness assembles it
with NASM, links it, loads the code between two `int3` breakpoints at a fixed
address, runs it under `ptrace` and writes a result file with the registers
after execution.

## Layout

- `src/` — the verified library (Verus):
  - `text`, `numeric` — characters, lines, integer parsing and hex formatting;
  - `types`, `error` — the data model and errors;
  - `json`, `parser` — the test-file format and the configuration schema
    (JSON access through `serde_json`), and `members`, which finds an
    object member given twice;
  - `executor`, `registers` — memory layout and writes, initial and
    recorded registers, the XSAVE area;
  - `trace` — the supervising process as a state machine;
  - `report`, `render` — the register report and result files;
  - `elf`, `elf_image` — the linked program: its header, section headers
    and symbol table, each read by `goblin`'s parser for it;
  - `toolchain` — NASM and linker command lines and outcomes;
  - `cli` — the command line (parsed by `clap`).
- `app/` — the program: argument reading, files, running the tools, `fork`,
  `ptrace` and `mmap`, and the JSON serialization of configurations.  With
  `--reg-init-code` the initial registers are written as instructions before
  the code (in a temporary copy of the test file) instead of being set by the
  harness.
- `tests/` — tests of the library.
