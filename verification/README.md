# siren

A voice engine: speech recognition (Gemini, or Whisper run locally),
speech synthesis (Gemini streaming, or Piper locally), voice activity
detection, a spoken conversation loop with a coding agent or Gemini Live,
and an MCP server that offers speaking and transcribing as tools.

## Layout

- `src/` is the library, verified with Verus. It holds the logic of the
  engine as functions on plain values, each with a contract:
  - `text`, `transcript`: trimming, joining and decimal text; transcripts
    built segment by segment.
  - `sse`, `wav`, `codec`: line framing of streamed responses, event-stream
    data lines, the WAVE header and 16-bit PCM in both directions, base64.
  - `audio`, `vad`: sample containers, fixed windows, and the energy-gated
    voice activity detector as a state machine over frames.
  - `json`: a JSON value with a mathematical view, its parsing through
    `serde_json`, and the lookups and builders that the protocols use.
  - `gemini`, `tts`, `asr`, `live`: credentials, endpoints, request bodies
    and the reading of replies of the Gemini speech services.
  - `agent`: the command line of the coding agent and the reading of its
    JSON replies, with the session that carries over between turns.
  - `mcp`: JSON-RPC requests, the tool list, tool calls and their results.
  - `ports`, `application`: the ports that adapters implement, each with an
    outcome predicate that a verified implementation can narrow, and the
    use cases built on them; for the microphone-driven use cases, the steps
    taken per block, per utterance (hear, ask, speak) and at the end of
    input.
- `app/` is the program around it: the command line, HTTP and WebSocket
  clients, audio devices, file I/O, the local models, the floating-point
  signal code, and the loops that feed microphone blocks to the verified
  steps, none of which Verus checks.
- `tests/` runs the library on concrete values.
