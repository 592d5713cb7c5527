# ds4

The host side of a local inference engine, verified with Verus: reading model
files, holding their tensors to the layout of each model family, the decisions
around the native engine's calls, and the three command-line programs built on
it.

- `src/` is the library. Verus proves the contracts of its functions from
  their bodies; `law_*` are the properties that relate several functions. Five
  items are believed instead, each of them about `std`: the contract of
  `String::push`, the wrappers `lossy` and `utf8_str` and the name `utf8_lossy`
  in `text`, and the wrapper `full_barrier` in `mem_gov`. A type outside the
  library that implements `Browser` takes on the contract of that trait.
  - `gguf`, `mapped`, `identify`, `shape`, `layout`: model files
  - `model`, `vocab`, `opening`, `session`, `batch`: the native engine
  - `mem`, `mem_gov`: memory census and admission
  - `cli`, `repl`, `token_printer`, `bench`, `worker`: the programs
  - `agent`: the agent, its tools, its saved sessions and its terminal
  - `args`, `num`, `text`, `bytes`: shared helpers
- `tests/` runs the compiled library.
- `app/` holds what talks to the operating system and to the engine.
