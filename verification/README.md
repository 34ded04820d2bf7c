# moodbar

A moodbar generator whose integer and text logic is verified with Verus.

- `src/`: the verified library. Option checks and option patches, colour
  parsing, SVG markup building and gradient-stop selection, PNG canvas filling,
  encoding and reading back, band palettes, the placement of analysis windows over a
  sample stream, the decisions of the decode loop, the native handle registry
  with its status codes and last-error record, and the command line's
  decisions (overwrite guard, skipping up-to-date batch outputs, audio
  extensions, batch tally, JSON escaping).
- `app/`: the program around it: the command line, file and stream I/O,
  audio decoding, the FFT and all floating-point analysis and drawing, the C
  ABI, and the WebAssembly and Android bindings.
- `tests/`: tests of the library against concrete values.
