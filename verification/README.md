# spec-flow

A local daemon for software delivery by agents. All durable state lives in
GitHub: issues, labels and pull requests. The daemon reads that state, decides
what comes next, and carries out the mechanical part by calling `git` and `gh`;
what takes judgment it leaves to short-lived agent processes.

- `src/` is the library. Every function in it is verified by Verus against the
  contract it states.
- `app/` is the program around it: the command line, files, processes and the
  MCP server.
- `tests/` runs the library.

Whatever the library asks of `git` and `gh` goes through the `Vcs` trait, which
records a history of calls and answers. A function that uses the trait says, as
its contract, exactly which calls it makes, in which order, and how its result
follows from the answers. `ShellVcs` further says which command lines each call
runs and how their output is read; `FakeVcs` is a GitHub in memory.

The one outside crate that the library calls is `serde_json`. `src/json.rs`
holds those calls and says what is taken on trust about them.
