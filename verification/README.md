# langchain_rust

The core of a toolkit for building applications on large language models,
written in Verus: every function in `src/` carries a contract that Verus proves.

- `src/output_parser/` — repairs and extraction of model output (escape
  sequences, newlines inside JSON strings, trailing commas, unclosed brackets,
  thinking sections, fenced code blocks, tags, the outermost JSON object,
  nested final answers) and the output parsers built on them.
- `src/memory/` — conversation memories: unbounded, windowed and empty.
- `src/llm/` — call options and their merging, the buffering of the tool calls
  of a step, the history kept by chat sessions, the messages of a request, how
  a prompt is prepared for each kind of model, the instructors that tell a
  model about its tools and read its reply, the split of tool calls between
  local tools and tools served by MCP servers, and the aggregation of streamed
  chat completions and the selection of a choice.
- `src/pattern.rs`, `src/text.rs` — regular expressions (through the `regex`
  crate) and text trimming.

`app/` holds what the library leaves to its caller: the conversions to and
from the `async-openai` types, the JSON encoding of requests, the reading of a
model's JSON reply with `serde`, and the network calls that drive a session
(running the calls to MCP tools among them). `tests/` exercises the library on concrete inputs.
