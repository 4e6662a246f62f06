# brunson

The logic of a terminal dashboard for pull requests, verified with Verus.

A daemon polls GitHub and serves what it knows over HTTP on this machine. The
dashboard shows it in five blades: Inbox, Overview, Activity, Files and Diff.

- `src/` is the library. It holds the state of the dashboard and every rule on
  it: what a key or an event changes, how pull requests are grouped and ordered,
  what each blade shows, the setup wizard, Markdown and diff rendering, and the
  decisions about the daemon's process. A frame is a `Scene`, a list of drawing
  steps; work that has to be done outside is a list of `Command`s.
- `app/` is what surrounds it: it paints scenes on the terminal, carries out
  commands, and hands the results back as events.
- `tests/` runs the library on concrete values.

`AppState::pump` hands out commands, `render_frame` draws, and `process_events`
takes up what came back. Contracts are stated over the views of the types: `App`
for the state, `Pane` for what is shown of it, `Wizard` for the setup wizard, and
sequences of `OpView` for what is drawn.
