# ferro_stash

The core of a log shipper, verified with Verus: what it computes and decides is
proved to be what the contracts say; what touches the machine is left to the
program around it.

- `src/script/`: a small expression language (a subset of Painless): tokens,
  syntax tree, parser, values, evaluation, and the choice of scripts that run as
  machine code.
- `src/codec/`: events from bytes and bytes from events, in 21 formats, and
  `create_codec`, which picks one by name.
- `src/cli/`: the decisions of the command line: configuration, reloading,
  monitoring API, log levels, AWS Marketplace metering.
- `src/event.rs`, `src/json.rs`, `src/dict.rs`, `src/text.rs`, `src/moment.rs`:
  the values that the rest works on.
- `src/interchange.rs`: JSON and MessagePack through serde.
- `tests/`: the library from outside.
- `app/`: the program: arguments, files, sockets, AWS calls, machine code.

## Doubles

Nothing in `src/` computes with floating-point numbers. A double is carried as
its bit pattern, its decimal text or the integer it was made from
(`double::Double`). Where a result depends on a computation with doubles, a
function hands that computation back (`Ask`) and is called again with the answer
among its `Answers`; until then nothing has changed. `app/floats.rs` drives this.

## Contracts

Each function is stated against a model: `JsonV`, `EventV`, `ScriptV`, `ExprV`
for the values, and spec functions such as `codec::Codec::decoded`,
`script::semantics::evaluated` or `cli::config::source_of` for the results.
Functions of other crates are called through small trusted functions, each with
a comment that says what is claimed of it. Public proof functions, many of them
in `codec/laws.rs`, `script/laws.rs` and `script/answered.rs`, state what holds of several functions
together.
