# pinch

A terminal process supervisor driven by a `pinch.yaml` manifest, whose core
is verified with Verus.

- `src/` is the verified library: the manifest model (`schema`), variable
  expansion (`vars`), command construction for local processes, containers
  and network namespaces (`runners`, `config`, `networks`), the line splitter
  of process output (`lines`), the pane buffers and dashboard state (`panes`,
  `dashboard`), the layout engine (`layouts`), keyboard and mouse handling
  (`inputs`), the supervision decisions (`supervisor`), what the dashboard
  shows (`views`), the file-watch routing and debouncing (`watch`), and the
  inspection commands (`cli`, `handlers`, `output`, with `properties` for
  the `key=value` view of a document), and the flat configuration format
  with one command line per process (`raw_config`). Laws of the library are
  public proof functions named `law_*`.
- `app/` is the `pinch` program around it: argument parsing with clap, YAML
  reading with serde, the terminal, pseudo-terminals, file watcher and timers.
  It performs what the library decides.
- `tests/` runs the library on concrete values.
