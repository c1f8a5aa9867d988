# protovalidate

Validation of Protocol Buffer messages against `buf.validate` rules, verified
with [Verus](https://github.com/verus-lang/verus). Descriptors are registered
serialized; the rules in their options are read by a reader that the caller
brings.

## What is proved

Every function states what it computes, and Verus proves that it does:

- `src/rules/standard` evaluates the standard rules. A check reports exactly
  the ids and messages that `rule_checks` says, and fails on exactly the values
  that `broken_by` says.
- `src/rules/build` compiles the rules of message types. What comes out, and
  which rules are refused with which message, is said by `src/rules/plan.rs`,
  and which types are compiled together by `src/rules/closure.rs`.
- `src/rules/eval` walks a message. The violations it reports, their order and
  their paths are those of `src/rules/outcome.rs`.
- `src/validate/wire.rs` serializes violations.
- `src/files.rs` and `src/registry.rs` say which files are registered, and what
  their types are described as.
- `src/validator.rs` puts these together.

Properties of the whole are proof functions named `law_*`: failing fast reports
the first violation of a full validation and no other, violations are never
mistaken for failures of validation itself, the first read or rule that fails
ends it, a file is added once, rules are compiled once and failures are not cached, the cache holds every type
reachable from one in it, no message is serialized but for custom rules, nested
messages are visited in field-number order, and more.

## What is trusted

- `src/pool.rs`: the calls into `buffa-descriptor`, which links files and
  parses rules messages by their descriptors.
- `src/rules/standard/pattern.rs`: the calls into `regex`, and
  `std::str::from_utf8`.
- `put_varint` in `src/validate/wire.rs`, and `clock` in
  `src/rules/standard/order.rs`.

A CEL runtime (`cel::Engine`), the well-known string formats
(`rules::standard::wellknown::Formats`), the reader of the `buf.validate`
options in a file (`options::OptionsReader`) and the runtime that holds a
message (`protobuf::Runtime`) come from the caller, and so do the serialized
files of the `buf.validate` schema, which a validator knows from the start.
What the reader says of a file is taken as it is: a standard rules message comes
both as values and as bytes, and that the two say the same is up to the reader.

## Layout

- `src/`: the verified library.
- `tests/`: its tests.
- `app/`: the views of live Python messages, through PyO3.
