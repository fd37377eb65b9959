# session_hub

A hub for terminal sessions that run on one host. One session is on the screen; a sidebar lists all
of them, with their workspaces, and lets the user switch between sessions, fold them, and make,
rename and close them.

- `src/` is the library, verified with Verus. It decides and never acts: `HubState` takes input,
  messages and answers, lists the effects that the program is to perform, and says which step of
  the program's it waits for: a connection, a name to be parsed, or a request to the host.
  - `state`: the hub and its view, over which every operation is stated.
  - `lifecycle`, `sessions`, `steps`, `dialogs`, `input`, `events`: the operations.
  - `rows`, `frame`, `terminal`, `compose`: the sidebar and the screen. `terminal` draws with
    ratatui; what ratatui draws is trusted, under names.
  - `invariants`: what holds of the hub in every state, first of all that its effects can be
    performed one after the other and lead to the connections that it counts on.
  - `connections`, `effects`, `protocol`, `names`, `text`: what the others are made of.
- `app/` is the program around it: connections, threads and the event loop.
- `tests/` runs the library.
