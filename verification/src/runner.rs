//! The decisions of the local (Burn) synthesis command: which model directory
//! to load and, once the model is loaded, whether and how to synthesize.
use vstd::prelude::*;

verus! {

/// Where synthesized speech is written when no output path is given.
pub const DEFAULT_OUTPUT_PATH: &'static str = "/tmp/voxcpm_out.wav";

/// The command-line options of the synthesis command, but for the guidance
/// value.
#[derive(Debug, Clone)]
pub struct RunOptions {
    /// Stop after loading the model (load-time benchmark).
    pub benchmark_load: bool,
    /// Text to synthesize.
    pub text: Option<String>,
    /// Output WAV path.
    pub output: Option<String>,
    /// Model directory; empty for the configured default.
    pub model_dir: String,
    /// Diffusion steps.
    pub timesteps: usize,
    /// Maximum generation length.
    pub max_len: usize,
    /// Precompile GPU shaders before synthesis.
    pub warmup: bool,
    /// Generate this many sentences in parallel.
    pub parallel_segments: Option<usize>,
    /// Reference audio for voice cloning; empty for none.
    pub ref_audio: String,
}

/// What to synthesize once the model is loaded.
#[derive(Debug, Clone)]
pub struct GenerationPlan {
    pub text: String,
    pub output: String,
    pub timesteps: usize,
    pub max_len: usize,
    pub parallel_segments: Option<usize>,
    /// The reference audio file to clone the voice of, if any.
    pub reference_audio: Option<String>,
}

/// What the command does after loading the model.
#[derive(Debug, Clone)]
pub enum RunPlan {
    /// Stop: only the load time was asked for.
    LoadOnly,
    /// Synthesize speech.
    Generate(GenerationPlan),
}

/// Why the command cannot go on.
#[derive(Debug, Clone, PartialEq, Eq)]
pub enum RunError {
    /// No text was given to synthesize.
    MissingText,
}

/// The model directory given on the command line; `None` when it is empty and
/// the configured default applies.
pub fn model_dir_override(model_dir: &str) -> (r: Option<String>)
    ensures
        model_dir@.len() == 0 ==> r is None,
        model_dir@.len() > 0 ==> (r matches Some(d) && d@ == model_dir@),
{
    if model_dir.is_empty() {
        None
    } else {
        Some(model_dir.to_owned())
    }
}

/// Decides what to do once the model is loaded: stop for a load benchmark,
/// fail without text, else synthesize the text into the given output (or
/// [`DEFAULT_OUTPUT_PATH`]), cloning the reference audio when one is named.
pub fn plan_after_load(opts: RunOptions) -> (r: Result<RunPlan, RunError>)
    ensures
        opts.benchmark_load ==> (r matches Ok(RunPlan::LoadOnly)),
        !opts.benchmark_load && opts.text is None ==> r == Err::<RunPlan, RunError>(RunError::MissingText),
        !opts.benchmark_load && opts.text is Some ==> (r matches Ok(RunPlan::Generate(p)) && {
            &&& p.text@ == opts.text->0@
            &&& p.output@ == match opts.output {
                Some(o) => o@,
                None => DEFAULT_OUTPUT_PATH@,
            }
            &&& p.timesteps == opts.timesteps
            &&& p.max_len == opts.max_len
            &&& p.parallel_segments == opts.parallel_segments
            &&& if opts.ref_audio@.len() == 0 {
                p.reference_audio is None
            } else {
                p.reference_audio matches Some(a) && a@ == opts.ref_audio@
            }
        }),
{
    if opts.benchmark_load {
        return Ok(RunPlan::LoadOnly);
    }
    let text = match opts.text {
        Some(t) => t,
        None => {
            return Err(RunError::MissingText);
        },
    };
    let output = match opts.output {
        Some(o) => o,
        None => DEFAULT_OUTPUT_PATH.to_owned(),
    };
    let reference_audio = if opts.ref_audio.as_str().is_empty() {
        None
    } else {
        Some(opts.ref_audio)
    };
    Ok(
        RunPlan::Generate(
            GenerationPlan {
                text,
                output,
                timesteps: opts.timesteps,
                max_len: opts.max_len,
                parallel_segments: opts.parallel_segments,
                reference_audio,
            },
        ),
    )
}

} // verus!
