# tonalli

A terminal chat client for LLMs (Gemini or Ollama), with its logic verified
by Verus.

- `src/` — the verified library:
  - `text` — UTF-8 byte geometry of strings, line splitting, blank test;
  - `app` — the chat screen state and the line editor (byte-offset cursor);
  - `screen` — what key presses, wheel turns and replies do to the screen;
  - `layout` — history rows and scroll limit, history lines, cursor cell;
  - `agents`, `gemini`, `ollama` — the conversation, the requests that
    carry it to a model and the reading of the answers;
  - `config` — choosing the model from the settings.
- `app/` — the program: settings from the environment, HTTP, JSON, the
  terminal and the event loop.
- `tests/` — tests of the library.

Settings: `AGENT_PROVIDER` (`gemini` or `ollama`), `AGENT_MODEL`,
`AGENT_API_KEY` (Gemini), `AGENT_OLLAMA_HOST` (default `localhost:11434`),
read from the environment or a `.env` file.
