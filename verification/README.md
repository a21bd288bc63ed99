# hielements

Hielements is a language for describing the structure of a software system
and checking that the code keeps to it. This crate holds its core, with
contracts proved by Verus:

- `src/lexer.rs`, `src/grammar.rs`, `src/parser.rs`, `src/ast.rs`: the
  language. The lexer is proved to produce exactly the tokens (kinds,
  texts, spans) that `lexed` describes; `grammar.rs` states, as spec
  functions over tokens, what each declaration and the whole program
  spell; the parser is proved to return exactly that program where the
  tokens spell one, and to report an error where they do not.
- `src/interpreter.rs`: validation and the run of checks: which checks run,
  in which order, under a filter and a limit, and how their outcomes are
  counted.
- `src/stdlib/`: the libraries. `files`, `rust` and `python` decide on
  plain inputs (paths, file texts, what a glob matched) that the caller
  gathers; `json` frames requests to plugins and reads their answers.
- `src/doc.rs`, `src/diagnostics.rs`, `src/span.rs`, `src/text.rs`: the
  documentation catalog, diagnostics, source positions and text helpers.
- `src/mcp/`, `src/cli.rs`, `src/fastapi.rs`: what the agent server and the
  command line answer, and the FastAPI authentication plugin's analysis.

`app/` is the `hielements` program around it: argument parsing, reading the
workspace, plugin processes and WebAssembly modules, terminal output, and
the Model Context Protocol server (`hielements mcp`).
