# vida

The logic of a terminal and host manager, verified with Verus: the desktop
client's state and pages, its terminal emulator surface, the command-line tool,
the agent tools and the terminal trial runner.

- `src/app.rs` and `src/app/`: the state of the client and the function from a
  message to the next state and the work to do.
- `src/screens/`: the pages, their state and what each of them shows.
- `src/term/`: screen frames, the grid that follows them, selection, keys, and
  what is drawn of a grid.
- `src/cli.rs`: the command-line tool's requests, replies and output.
- `src/mcp.rs`: the tools that agents call.
- `src/term_test.rs`: escapes, frames and screens of the trial runner.
- `src/text.rs`: text in the user's language, as keys and spans; the words
  themselves are looked up by `app/`.
- `src/json.rs`, `src/strings.rs`, `src/order.rs`, `src/names.rs`: values,
  characters, sorting and sets of names.

Each type has a mathematical model as its view, and each function states its
result over those models. Properties that span several functions are the public
proof functions whose names begin with `law_`.

`app/` holds the windows, sockets, files and command lines around the library.
