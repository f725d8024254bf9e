# wiky

Wikipedia in the terminal: search, read articles and summaries, follow
disambiguation pages, with hex-color themes, emoji and Markdown-style
rendering.

## Layout

- `src/` — the library, written in Verus. Every function states its
  behaviour in `requires`/`ensures` over spec functions, and Verus proves
  it, with four exceptions: the small wrappers around outside code
  (`show` around `colored`, `textwrap_wrap` around `textwrap::wrap`,
  `to_lowercase` around `str::to_lowercase`, `push_char` around
  `String::push`) have contracts that Verus believes without proof; their
  doc comments say what each one claims.
  - `text.rs` — character-level text helpers (trim, lines, split, decimal
    numbers, `from_str_radix`) and their specifications.
  - `markup.rs` — the small grammars of article text: HTML tags and
    entities in search snippets, `== Heading ==` section markers, wikitext
    `[[links]]` and `{{templates}}`.
  - `theme.rs` — hex colors, the built-in themes, and styled text (`Paint`).
  - `config.rs` — the settings, the active theme, the API URL, the width.
  - `client.rs` — request parameters and the interpretation of API answers:
    search results, articles, summaries, disambiguation options.
  - `render.rs` — the layout of every screen as pieces of styled text, and
    their rendering.
  - `commands.rs` — `config set`, `--section` filtering, menu choices.
  - `browse.rs` — the decisions taken while following disambiguation pages.
  - `error.rs` — the error type and its messages.
- `tests/` — tests of the library on concrete values.
- `app/` — the command-line program: argument parsing, the configuration
  file, HTTP, the pager, the spinner and the browser.

The laws the library keeps (for example that `#f60` and `#ff6600` are the
same color, that a rendered article shows its title, or that `config set
width` accepts what `config show` prints) are public proof functions named
`law_*`.
