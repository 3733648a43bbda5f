# aisix

The core of an LLM gateway, verified with Verus: provider definitions and
their request quirks, bridging between chat formats (OpenAI Chat, OpenAI
Responses, Amazon Bedrock Converse), the SSE and AWS EventStream line
readers, the configuration entity stores kept in etcd, and the decisions of
the admin API.

- `src/` is the verified library. Each module states its behaviour in
  `requires`/`ensures` contracts over spec functions; the `law_*` proof
  functions state properties that span several calls.
- `tests/` runs the library on concrete values.
- `app/` is the command around it: it reads a JSON configuration file, checks
  it with the library and reports the providers and settings it would run
  with; it also holds the serde shapes of Bedrock stream frames and of
  OpenAI-compatible stream chunks that feed the library.
