# offline_translator

The logic of an offline translation app for Linux phones and desktops,
written in Verus: every function in `src/` carries a contract that Verus
proves, and the laws the app relies on are stated as proof functions.

- `src/` — the verified library: the language catalog and its views, the
  language selection and screen navigation, launch URIs and command lines,
  image loading (decoding, orientation, sizing), image and document
  requests, font fallback planning, the text-to-speech
  voice lists and playback decisions, PCM audio framing and the audio
  back ends' decisions, and the I/O event loop's decisions.
- `tests/` — tests of the library on concrete values.
- `app/` — the program around the library: the Qt user interface, the GPU
  camera pipeline, the translation engine, file and device I/O, and the
  threads that run the event loop and speech.

Calls into outside crates that the logic makes (gzip decoding, language
detection, image decoding and resizing, a few std functions) go through small trusted wrappers whose
contracts are written next to them.
