# lotus

Lotus is a web security scanner driven by Lua scripts: it reads URLs, hosts
or paths, runs each script against each target, and writes the findings the
scripts report.

The crate is laid out in two parts.

- `src/` is the library, written in Verus and verified: the command-line
  grammar and its validation, the rewriting of URL query strings for payload
  injection, response matching, the report records and their table layout,
  the site map, the resolution of a script's request options, the request
  rate limiter, redirect policy and error naming, raw request framing, header
  parsing, text encodings and scan bookkeeping.  Calls into `url`, `regex`,
  `fancy-regex`, `base64`, `html-escape`, `url-escape`, `urlencoding`,
  `console` and `serde_json` stand behind small trusted wrappers whose
  contracts say what those crates return.
- `app/` is the program around it: argument parsing with `structopt`, the Lua
  runtime (`mlua`), the network (`reqwest`, `slinger`, `interactsh-rs`,
  `thirtyfour`), terminal output, files and the concurrent scan loop.

`tests/` holds the tests of the library.
