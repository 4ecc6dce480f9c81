# chatbot_backend

The backend of the community chatbot, as a Verus-verified library with a thin
Cloudflare Worker around it.

- `src/` — the verified library: path, origin and variable checks
  (`common`, `cors`), replies (`reply`, `handler`, `routes`), routing of AI
  requests (`ai`), the gateway requests for Grok and Google AI Studio and the
  chatbot's JSON reply (`ai/cloudflare/v1`), and the documentation index:
  chunking, vector records and the indexing run as a state machine
  (`ai/cloudflare/v1/rag`). Text helpers (`text`) and JSON helpers (`json`)
  carry the specifications that the contracts are written in.
- `app/` — the worker: it reads requests, variables and upstream replies,
  hands their values to the library, and performs the requests and replies
  that the library describes.
- `tests/` — tests of the library on concrete values.
