# lala

A local assistant: an inference server that serves a GGUF model through an
OpenAI-compatible chat API, and a command-line client that keeps the
conversation, routes each query and runs a retrieval → reasoning → decision
pipeline.

`src/` is the library, verified with Verus:

- `api` — chat types, the Mistral `[INST]` prompt builder, request checks and
  reply construction of the completion endpoint.
- `model` — the instruction wrapper and the stop rule of the token loop.
- `chunker` — character-window chunking of documents for retrieval.
- `context` — the token budget of the retrieved context and its injection into the
  system prompt.
- `planner` — the two-step reasoning → decision agent.
- `chat` — the conversation history and the turn pipeline of the client.
- `repl` — classification of typed lines and command outcomes.
- `text` — string equality, search, trimming and joining.

`app/` holds the programs around it: the HTTP server (axum, tokio), the
llama.cpp runner and the readline loop of the client.
