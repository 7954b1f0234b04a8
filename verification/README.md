# shuji

The core of ShuJi (枢机), a multi-department AI development workflow in which
each department is an LLM agent and the departments talk through documents
with YAML frontmatter. This crate holds the decisions of that workflow as
Verus-verified Rust; the program around it does the file, process and
network work.

## Layout

- `src/` — the verified library.
  - `workflow/` — stage machines, skill chains, task graphs (acyclic by
    construction), profiles and their gates, run state.
  - `tool/` — what the tools decide: path scoping, command safety, the read
    cache, documents and their approval gate, patches, search reports,
    directory trees, test and compile summaries, dispatch of tool calls.
  - `validate/` — contract parsing and diffing against the code, design
    schema checks, lint and test summaries, delivery reports.
  - `text.rs`, `keyed.rs` — character-sequence and keyed-list helpers with
    their specifications.
  - `usage.rs` — usage updates sent to the interface.
- `tests/` — tests of the library, run against the compiled crate.
- `app/` — the unverified shell: file and process I/O, JSON and YAML
  conversion, the editor launcher, the tool loop.

Calls into outside crates (`serde_json`, `sha2`, `chrono`, `tokio`) and into
`std` where no specification exists go through small trusted wrappers, each
with a doc comment saying what its contract claims.

Verify with Verus on `src/lib.rs`; the laws of the library are the public
`proof fn`s named `law_*`.
