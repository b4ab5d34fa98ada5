# agent-may

A terminal chat agent with a Codex-style login. The logic is a library, `src/`, that is verified
with Verus; `app/` is the program around it, and `tests/` runs the library from outside.

## The library

- `text`, `lines`, `offsets`, `number`, `wrap`: characters, lines, byte offsets, digits, and
  breaking text into lines.
- `paste`, `layout`, `ui`, `screen`: the input with its pasted pieces, sizes and positions, what
  keys and answers do to the screens, and what the screens say.
- `paths`, `config`, `time`: locations, settings, moments.
- `conversation`, `storage`: conversations as text, and chats as they are kept, listed and loaded.
- `encoding`, `json`: encodings, digests, random values, URLs and JSON, taken from other crates.
- `auth`, `login`, `openai`, `cli`: tokens, the login, chat requests, and the commands.

Contracts speak of texts as sequences of characters. What a function of another crate returns is
stated at the wrapper that calls it; where that would take pages, the result has a name.
Properties that span several functions are proof functions whose names start with `law_`.

## The program

`app/` reads and writes files, talks HTTP, runs the callback server and draws the terminal. It
holds copies of the library's types where they are serialised. Functions that need the time or
chance come in two forms: one that takes the moment or the number, and one that fetches it.
