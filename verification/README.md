# paperclip_actix

Builds the OpenAPI (v2) operation of an actix-web handler, and the global
definitions and security definitions it needs, from descriptions of the
handler's argument and output types. Every function in `src/` is verified
with Verus against a contract over mathematical views.

Layout:

- `src/strmap.rs` — `StrMap` and `StrSet`: string-keyed maps and sets kept
  in ascending key order (their type invariant), so that they are walked in
  the order a `BTreeMap<String, _>` is; key comparison by code point.
- `src/text.rs` — string copies and the decimal text of a status code.
- `src/models.rs` — schemas, parameters, responses, operations and security
  schemes, with their views; `retain_ref`, `remove_refs`, and the merge of a
  security scheme into the definitions.
- `src/actix.rs` — `OperationModifier` (what an extractor or responder type
  contributes), the updates it makes to an operation and to the definitions,
  `HandlerSignature` (a handler's argument and output types), the
  `OperationWrapper` that lays a declared summary, description and tags over
  the generated operation, and `ResponderWrapper`.
- `src/laws.rs` — properties proved of every handler description.
- `app/lib.rs` — the actix-web side: the schema declarations of types,
  which modifier each actix-web extractor or responder type is, handlers as
  operations, `Responder` for the responder wrapper, and the operation
  wrapper that carries the handler itself.
- `tests/` — tests on concrete values.
