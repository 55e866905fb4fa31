# vox_lab

The verified core of a small text-to-speech toolkit that drives VoxCPM models
through several runtimes (a local Burn runtime and the official Gradio cloud
service).

- `src/` is the library, proved against its contracts: WAV decoding and encoding on
  bytes (with a proof that reading a written file gives back its samples and
  rate), the Gradio client's endpoint addresses, upload-answer reading and
  server-sent-event parser, the VoxCPM `/generate` argument list and the choice
  of the generated audio, the `cargo build` command of a backend binary, and
  the decisions of the local synthesis command.
- `app/` is the program around it: HTTP with `reqwest`, files, command-line
  parsing, logging, and the floating-point work (sample scaling, peak
  normalization, resampling).
- `tests/` runs the library on concrete inputs.
