# bbb parser

An incremental parser for the BBB service-bus frame format, verified with Verus.

- `src/protocol_defs.rs` (and `protocol_defs/`): byte values of the format.
- `src/wire.rs`: which bytes may stand in a name, how they read as
  characters, where a name ends, how digits read as a number.
- `src/grammar.rs`: the frame format, as what one call of `BBBParse::parse`
  does to the parser's state and what it answers.
- `src/debug_text.rs`: the debugging text of frames and answers.
- `src/parser.rs`: `ParsedFrame`, `ParseResult`, `BBBParse`, each function
  proved against the definitions above.
- `src/laws.rs`: properties across calls: an `IncompleteFrame` answer can be
  resumed with a longer buffer, reported payload bounds lie inside the
  buffer, and the parser's state only ever grows (method and length kept,
  cursor never moving back).
