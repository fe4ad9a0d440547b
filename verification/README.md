# lazytmux

A terminal UI for tmux that shows sessions, windows and panes in a
lazygit-style tree, with a terminal-style preview of the selected target.

The decisions of the program live in a library whose behaviour is stated in
`requires`/`ensures` contracts and proved with Verus; the program around it
(`app/`) reads the terminal, runs tmux, scans the file system and draws.

## Layout

- `src/text.rs`: character-level text handling (trimming, splitting, words,
  substring and fuzzy matching, decimal text and integer parsing).
- `src/args.rs`: splitting a typed tmux command line, with quotes and escapes.
- `src/tmux.rs`: servers, sessions, windows, panes, targets and tmux commands.
- `src/listing.rs`: reading `list-panes` output into sorted sessions.
- `src/client.rs`: the client options, candidate servers and the commands of
  every tmux action.
- `src/discovery.rs`: where sockets are looked for.
- `src/load.rs`: a load of every reachable server, step by step.
- `src/tree.rs`, `src/rows.rs`: the rows of the tree, search and favorites.
- `src/controller.rs`: the application state and what each key does.
- `src/favorites.rs`: the text of the favorites file.
- `src/layout.rs`: placing preview panes on screen.
- `src/process.rs`: a pane's process tree.
- `src/laws.rs`: properties that relate several operations.
- `app/`: the executable: terminal, tmux runs, file system, drawing, metrics.
