# gemini-rag

A command-line tool that feeds local files into a Gemini File Search store and
queries them, and an OpenAI-compatible chat completions proxy in front of Gemini
with File Search grounding.

The crate is written in Verus. `src/` is the verified library: the requests sent to
the Gemini API and what is made of the answers (errors, operations, the retries of
an upload), the chat completion documents and their streaming session, the
server-sent event parser, citations and file references, the files and PDF pages
chosen for upload and their order, and the command line's values. Every function
there carries a contract that Verus proves, except five trusted items whose contracts
Verus believes: the wrappers around `String::from_utf8_lossy`, `String::push`,
`mime_guess::from_path` and the standard `base64` engine, and the specification of
`core::slice::from_ref`.

`app/` is the program around it: command-line parsing, HTTP with `reqwest` and
`axum`, files, `pdftoppm`, logging, and the `serde` forms of the library's types.

`tests/` runs the library on concrete values.

Layout of `src/`:

- `text.rs`, `number.rs`, `paths.rs`, `json.rs`: text, decimal numbers, file paths
  and JSON documents, with their specifications.
- `gemini/types.rs`: the Gemini API objects; `gemini/client.rs`: requests, answers,
  operations, upload retries.
- `server/`: chat prompts, completions, images, metadata, citations, request headers,
  server-sent events and the streaming session.
- `cli.rs`, `files.rs`, `pdf.rs`, `query.rs`, `output.rs`, `logging.rs`, `mcp.rs`,
  `util.rs`: the commands and the decisions they take.
