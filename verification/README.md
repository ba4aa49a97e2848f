# trapy

The logic of a Python logging facade that emits real `tracing` events with
structured keyword arguments, written and verified in Verus.

`trapy.info("seam planned", cat="planning", qs=[0.1, 0.2])` becomes one `tracing`
event with a field per keyword argument, at the caller's file and line, under the
target `py:<module>`.

## Layout

- `src/` is the library: what an event or a span is, which callsite it uses, which
  value goes into which field, which layers a subscriber gets, and how events cross
  from one cdylib to another. Everything in it carries a contract and is verified,
  except for the calls into other crates and the standard library, whose contracts
  are trusted: the functions and types marked `external_body`, the
  `assume_specification` items and the spec functions without a body in `text`,
  `callsite`, `directive`, `fmt` and `router`. Each says in its comment what it
  claims.
- `tests/` runs the library on concrete values, with the real outside crates.
- `app/` is the extension module around it: the interpreter, the dispatcher, files,
  the environment and the C table.

| module | what it decides |
|--------|-----------------|
| `value` | how a Python object is read |
| `kwargs` | which keyword argument is what |
| `callsite` | which callsite an event or a span uses |
| `event` | which value goes into which field |
| `span` | entries, nesting depth and timing events of spans |
| `level` | the level filter at the boundary between cdylibs |
| `capsule` | the handshake between cdylibs and the events that cross it |
| `fmt`, `router`, `init` | the layers of the subscriber and their installation |
| `directive` | which filter directives can be read |
| `timing` | which timing histograms are reported |
| `text` | trimming, case, quoting, numbers and UTF-8 |

Floats are held by the bits of their IEEE 754 doubles. State that a process keeps
once (the registry of callsites, the level filter, the queue of layers) is a value
that the caller owns and passes in.

Compound values are recorded as `valuable` trees where the build sets
`--cfg tracing_unstable`, and by their debug text otherwise.
