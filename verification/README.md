# praxis_ai

The rules behind Praxis's AI filters, as a Verus library: every function in
`src/` states what it returns in a contract, and Verus proves it.

Six contracts are believed rather than proved, each with what it claims in its
doc comment: the wrappers `parse_header_name` and `check_header_name` in
`header_name`, `string_to_json` and `message_to_json` in `nemo`, and the
specifications of `str::to_ascii_lowercase` and `str::trim` in `text`.

| module | what it holds |
| --- | --- |
| `chat_completions` | registry of Chat Completions operations and matching of request heads |
| `operation` | operation metadata, path templates and the matcher |
| `registry_check` | drift check of the registry against a specification of the API |
| `promotion` | which values may be promoted to which headers |
| `header_name` | HTTP header names |
| `model_rewrite` | configuration of the model rewrite filter and its validation |
| `nemo` | NeMo Guardrails provider: request, evaluation steps, results |
| `json`, `string_map`, `text`, `error` | values that the rules work on |

Properties that span functions stand as public proof functions named `law_..`
beside the functions that they are about.

`app/` is ordinary Rust around the library: it reads configuration, resolves
endpoints, runs callouts through the outbound filter chain and parses bodies.
`tests/` runs the library on concrete values.
