# c2rust-tests-helper

Helps move the C tests of a project translated with `c2rust-demo` over to
Rust: it discovers the C test functions (`void|int test_…(`), reads the
interface reports that `c2rust-demo init` / `merge` write, and maps each C
test to the interface symbols it mentions as whole words.

The library (`src/`) is written in Verus and proved against its contracts:

- `interface_report` – the two interface report formats, parsed into symbols
  sorted by module, name and kind;
- `c_tests` – test discovery in C sources, function bodies, the discovery
  report;
- `mapping` – candidate symbols per test and the mapping report;
- `report_location`, `paths` – where the interface report is looked for and
  where reports are written;
- `config`, `collect`, `lint`, `check`, `report`, `manifest`, `runner`,
  `feature` – the migration-manifest workflow: merging discovered tests,
  linting entries against a feature's generated modules, the check steps,
  coverage figures;
- `order`, `text`, `components`, `debug_text`, `patterns` – sorting,
  character-level text handling, Unix path components, `{:?}` quoting and
  the calls into `regex`.

`app/` is the command line around it (clap, file system, processes,
printing).
