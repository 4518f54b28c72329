# h_opentypeless

The verified core of the H dictation desktop app, written in Verus.

`src/` holds the logic with its contracts and proofs:

- prompt assembly and the transcript message (`prompt`, `request`, `text`),
  the dictation fidelity guard (`dictation_guard`), streamed-answer handling
  and retry policy for OpenAI-compatible providers (`polish`,
  `response_limits`), history replay (`history`);
- audio capture decisions (`capture`, `lifecycle`), output attenuation
  control (`audio_ducking`), utterance segmentation and preview text
  (`preview`), the Escape shortcut (`escape_cancel`), recording feedback
  (`voice_feedback`), practice sessions (`tutorial`);
- built-in speech and language models: catalogs, downloads resumed over
  exact byte ranges, model files checked against their pinned SHA-256 as
  they are read in chunks, engine choice and platform facts (`local_stt`, `stt_engine`,
  `local_llm`, `digest`, `numeric`);
- the mobile endpoint: WAV parsing, listening addresses, request screening
  (`wav`, `mobile`), and small shell settings (`auto_start`, `product_scope`,
  `credential`, `shell`, `fn_event`).

`app/` is the unverified shell: serialized forms of the core's types, file
and process I/O, and the parts that compute on floating-point device levels
or window geometry.

`tests/` exercise the library on concrete values.
