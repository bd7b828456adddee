# shrimp

A coding agent for local language models (Ollama and LM Studio): it indexes
a repository with tree-sitter, retrieves symbols and text for a question,
lets the model call tools (read, write, patch, shell, search, symbol
lookup), and shows the conversation in a streaming terminal interface.

## Layout

- `src/` — the library, verified with Verus. Each module states its
  behaviour in `requires`/`ensures` contracts over mathematical views:
  - `text`, `paths`, `wrap`, `style` — text, path and layout primitives;
  - `json`, `toolcall` — JSON values and the tool calls found in a reply;
  - `provider`, `config`, `session`, `context`, `retrieval`, `index`,
    `syntax` — settings, conversation state, the context budget, search
    and the symbol index;
  - `tools`, `agent`, `stream` — the tool guards and arguments, the rules
    of a turn, and the framing of streamed replies;
  - `markdown`, `highlight`, `cards`, `chat`, `keys`, `tui` — what the
    terminal interface draws and how keys change it;
  - `laws` — properties that relate several operations, proved.
- `tests/` — tests of the library on concrete values.
- `app/` — the program around the library: command line, HTTP to the model
  servers, the on-disk index, file and shell tools, and the ratatui screens.
