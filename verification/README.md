# ReversedFront desktop

The desktop shell of ReversedFront, with its decisions verified by Verus.

- `src/` is the library `rf_desktop`: accounts and their settings, where files
  are kept, which resources are fetched and how requests are answered, process
  slots, and how updates of the program and of its Mod are found, checked and
  applied. Every function states what it returns; what the parts promise
  together is proved in the functions whose names begin with `law_`.
- `src/outside.rs` holds the calls into other crates; what it claims of them is
  the part that is not proved.
- `app/` is the program around the library: the window, files, locks, processes
  and requests.
- `tests/` runs the library on concrete values.

Paths are opaque to the library: it names a directory and the segments below it,
and the program joins them. Work that alternates with files or the network is
written as steps: the program performs an action, reports what came of it, and
the library says what follows.
