# crust

Crust is a terminal coding agent: a chat with a model that can run shell commands, read,
write and edit files, search the web, hand work to LangGraph dev servers, start scoped
child agents, and keep Markdown skills and workspaces ("spaces") at hand. It has an
interactive terminal interface, a command line for its registries and skills, and an
HTTP gateway.

## Layout

- `src/` is the library, verified with Verus. It holds the sessions and their history,
  the context sent to the model and its compaction, the agent's turn and tool-call
  bookkeeping, the replies of the tools, the registries of spaces and LangGraph servers,
  the agent protocol of spaces, skills, the command-line and slash-command parsers, the
  decisions of the HTTP gateway, what the terminal interface draws, and the resolution
  of tool paths inside the workspace. Every public function states its result in its
  contract; the laws the library keeps are public proof functions.
- `app/` is the program around it: reading and writing files, the environment, the
  model's streaming API, HTTP, the terminal, and the figures computed in floating point.
- `tests/` runs the library on concrete values.
