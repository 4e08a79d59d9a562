# agiworkforce

The verified core of a desktop AI-assistant application, specified and
proved with Verus: the decisions and computations of its commands that do
not rest on the application's router, database, security and workflow
services. Commands that only forward to those services are not part of
this crate.

- `src/` is the library. Each module states its behaviour as `requires` /
  `ensures` contracts over `Seq`, `Map` and views, and proves them:
  error-message parsers (`debugging`), LLM prompts and answer readers
  (`design`, `code_editing`, `debugging`), line diffs and their
  application (`diff`, `code_editing`), path and file checks (`file_ops`),
  `git` output readers and arguments (`git`), the language-server framing
  (`lsp`), the shortcut registry (`shortcuts`), the chat send loop and the
  streamed answer as step functions (`routing`), chat routing and message
  checks (`chat`, `settings`, `agent`), computer-use sessions and tool
  dispatch (`computer_use`), log statistics (`error_reporting`), model
  providers and MCP servers (`llm`, `mcp`), code completion prompts
  (`completion`), messaging platforms and credentials (`messaging`), the
  checks of the database commands (`database`), and small lookup tables (`email`, `media`,
  `subscription`, `automation`, `analytics`).
- Laws that relate several operations are public proof functions named
  `law_*`; others are stated in the `ensures` of the function they are
  about (for example, applying a computed diff gives the new text, proved
  for texts without carriage returns; with a lone `'\r'` it can fail).
- The outside crates `similar` and `base64` are called from the library
  through a few trusted wrappers in `diff.rs` and `email.rs` (Base64 also
  for binary file contents, in `file_ops.rs`); `text.rs`
  wraps three `std` string functions.
- `app/` is the thin command layer: it runs `git`, reads and writes files,
  talks to language servers, and holds shared state behind locks. The
  loops that alternate outside work and the library's decisions (the chat
  send loop, approvals, MCP start-up) run here over traits that stand for
  the model router, the approval controller and the MCP client. It
  checks the preconditions of the library functions it calls.
- `tests/` runs the library on concrete values.
