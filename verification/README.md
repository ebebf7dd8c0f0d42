# wyoming

A Wyoming-protocol voice satellite for Home Assistant: it captures audio, detects voice
activity, streams speech to the server, plays the spoken answer, and shows its state on
LEDs, a console or a buzzer.

## Layout

- `src/` is the verified library (Verus). It holds the protocol (events, their wire
  format and every event type), the satellite's state machine and the decisions of its
  main loop, the voice-activity detectors' integer logic, PCM and WS2812 encodings, the
  configuration rules, and the diagnostics bookkeeping with its small HTTP interface.
  JSON text is read and written through serde_json, behind trusted wrappers in
  `src/json.rs` whose contracts state what the library relies on.
- `tests/` exercises the library.
- `app/` is the program around the library: configuration loading with serde and toml,
  sockets and threads, WAV files through hound, GPIO and SPI through rppal, and the
  floating-point signal processing (filters, spectral analysis, adaptive noise floor,
  LED animations), which the library does not model.

ALSA devices are modelled in `src/alsa.rs` (parameters, captured data, device reuse);
this build has no ALSA backend, so opening a device reports it unavailable.
