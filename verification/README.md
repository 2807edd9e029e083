# ai_chat

A chat overlay for the active pane of a terminal emulator. The user types an
instruction; a language model answers with a message and with actions for the
pane: commands to run, text to type, keys to press. `/watch <instruction>` keeps
an eye on the pane and lets the model respond whenever its output changes,
`/watch off` stops that. Actions that look destructive are put to a person
first.

- `src/` is the library, verified with Verus. `session` is the state machine
  that drives everything; `overlay` holds the conversation and the input line;
  `risk` and `action` decide what needs a confirmation; `reply`, `openrouter`
  and `snapshot` deal with what goes to the model and comes back; `screen`,
  `transcript`, `style`, `input` and `wrap` compose the screen; `text` and `key`
  serve the others.
- `app/` does what the session asks for: it polls the terminal, sends requests
  and talks to the pane.
- `tests/` runs the library on concrete values.

The API key is expected in the environment variable `OPENROUTER_API_KEY`.
