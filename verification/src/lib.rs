//! vox_lab: the verified core of a small multi-runtime text-to-speech toolkit.
//!
//! - [`wav`]: RIFF/WAV decoding (16/32-bit PCM) and 16-bit PCM encoding on bytes.
//! - [`text`]: character-level string helpers (Unicode trimming, joining).
//! - [`json`]: a plain JSON value as exchanged with a Gradio server.
//! - [`gradio`]: endpoint addresses, upload answers and the event-stream parser
//!   of a minimal Gradio 5 client.
//! - [`cloud`]: the VoxCPM cloud backend's configuration, `/generate`
//!   arguments and choice of the generated audio.
//! - [`cargo_build`]: the `cargo build` command for a backend binary.
//! - [`runner`]: the decisions of the local synthesis command.
pub mod cargo_build;
pub mod cloud;
pub mod gradio;
pub mod json;
pub mod runner;
pub mod text;
pub mod wav;
