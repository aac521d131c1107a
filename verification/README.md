# qubit_io_text

Unicode text reading and writing: text traits, in-memory readers and
writers, line recognition under configurable line endings, and the
bookkeeping of charset decoding and encoding over byte streams.

- `src/` is the library, verified with Verus. Contracts are stated over
  character sequences (`Seq<char>`) and UTF-8 lengths; the line functions
  are specified by `line_scan::line_len`, the first line of a stream.
- `tests/` exercises the library on concrete values.
- `app/` holds the stream adapters (buffered, charset, asynchronous and
  character-stream readers and writers). They perform the I/O and codec
  calls and leave every decision to the library: `DecodedBuffer` chooses
  the decoder's next step, `LineScanner` and `LimitedLineScanner` find line
  ends, `DecodeRun` and `EncodeRun` keep the bookkeeping of whole-string
  conversions, and `EncoderLifecycle` tracks a writer's encoder.
