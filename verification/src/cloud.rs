//! The VoxCPM cloud text-to-speech backend: its configuration, the positional
//! arguments of the Gradio `/generate` endpoint, and the choice of the audio
//! file in its answer.
use crate::gradio::FileData;
use crate::json::{
    find_first_object, find_member_str, first_object, json_number, json_single_str_member,
    json_str, member_str, JsonValue,
};
use vstd::prelude::*;

verus! {

/// The official VoxCPM Gradio server.
pub const DEFAULT_API_URL: &'static str = "https://voxcpm.modelbest.cn";

/// Output sample rate every generated clip is brought to.
pub const TARGET_SAMPLE_RATE: u32 = 48000;

/// Configuration of the cloud backend.
#[derive(Debug, Clone, Default)]
pub struct VoxCPMCloudConfig {
    /// Base URL of the Gradio server (no trailing slash). Defaults to [`DEFAULT_API_URL`].
    pub api_url: Option<String>,
    /// Optional control instruction for text-only synthesis.
    pub control_instruction: Option<String>,
}

impl VoxCPMCloudConfig {
    /// The server to talk to: `api_url`, or [`DEFAULT_API_URL`] when unset.
    pub fn base_url(&self) -> (r: String)
        ensures
            r@ == match self.api_url {
                Some(u) => u@,
                None => DEFAULT_API_URL@,
            },
    {
        match &self.api_url {
            Some(u) => u.clone(),
            None => DEFAULT_API_URL.to_owned(),
        }
    }

    /// The control instruction, empty when unset.
    pub fn control_instruction_or_default(&self) -> (r: String)
        ensures
            r@ == match self.control_instruction {
                Some(c) => c@,
                None => Seq::<char>::empty(),
            },
    {
        match &self.control_instruction {
            Some(c) => c.clone(),
            None => String::new(),
        }
    }
}

/// `v` is the Gradio `FileData` object `{path, url, meta: {_type: "gradio.FileData"}}`.
pub open spec fn json_file_data(v: JsonValue, path: Seq<char>, url: Seq<char>) -> bool {
    &&& v matches JsonValue::Object(m)
    &&& m@.len() == 3
    &&& m@[0].0@ == "path"@ && json_str(m@[0].1, path)
    &&& m@[1].0@ == "url"@ && json_str(m@[1].1, url)
    &&& m@[2].0@ == "meta"@ && json_single_str_member(m@[2].1, "_type"@, "gradio.FileData"@)
}

/// The positional arguments of `/generate`, in order: text, control
/// instruction, reference audio, ultimate-cloning switch (off), prompt text
/// (empty when absent), cfg value, normalize (off), denoise (off), diffusion
/// steps (10), user id (empty).
pub open spec fn generate_arguments_spec(
    args: Seq<JsonValue>,
    text: Seq<char>,
    control_instruction: Seq<char>,
    reference: FileData,
    prompt_text: Option<Seq<char>>,
    cfg_value: JsonValue,
) -> bool {
    &&& args.len() == 10
    &&& json_str(args[0], text)
    &&& json_str(args[1], control_instruction)
    &&& json_file_data(args[2], reference.path@, reference.url@)
    &&& args[3] == JsonValue::Bool(false)
    &&& json_str(
        args[4],
        match prompt_text {
            Some(p) => p,
            None => Seq::empty(),
        },
    )
    &&& args[5] == cfg_value
    &&& args[6] == JsonValue::Bool(false)
    &&& args[7] == JsonValue::Bool(false)
    &&& json_number(args[8], "10"@)
    &&& json_str(args[9], Seq::empty())
}

fn owned(s: &str) -> (r: String)
    ensures
        r@ == s@,
{
    s.to_owned()
}

/// Builds the positional arguments of `/generate` for synthesizing `text` in
/// the voice of the uploaded `reference` audio. `cfg_value` is the JSON form of
/// the classifier-free guidance value.
pub fn generate_arguments(
    text: &str,
    control_instruction: &str,
    reference: &FileData,
    prompt_text: Option<&str>,
    cfg_value: JsonValue,
) -> (r: Vec<JsonValue>)
    ensures
        generate_arguments_spec(
            r@,
            text@,
            control_instruction@,
            *reference,
            match prompt_text {
                Some(p) => Some(p@),
                None => None,
            },
            cfg_value,
        ),
{
    let meta = JsonValue::Object(vec![(owned("_type"), JsonValue::Str(owned("gradio.FileData")))]);
    let file = JsonValue::Object(
        vec![
            (owned("path"), JsonValue::Str(reference.path.clone())),
            (owned("url"), JsonValue::Str(reference.url.clone())),
            (owned("meta"), meta),
        ],
    );
    let prompt = match prompt_text {
        Some(p) => owned(p),
        None => String::new(),
    };
    let mut args: Vec<JsonValue> = Vec::new();
    args.push(JsonValue::Str(owned(text)));
    args.push(JsonValue::Str(owned(control_instruction)));
    args.push(file);
    args.push(JsonValue::Bool(false));
    args.push(JsonValue::Str(prompt));
    args.push(cfg_value);
    args.push(JsonValue::Bool(false));
    args.push(JsonValue::Bool(false));
    args.push(JsonValue::Number(owned("10")));
    args.push(JsonValue::Str(String::new()));
    args
}

/// Why no audio could be taken from a `/generate` answer.
#[derive(Debug, Clone, PartialEq, Eq)]
pub enum CloudError {
    /// No element of the answer is an object (`FileData`).
    NoAudioFileData,
    /// The first object has neither a non-empty `url` nor a non-empty `path`.
    NoAudioUrl,
}

/// `s` when it is a non-empty string.
pub open spec fn non_empty(s: Option<Seq<char>>) -> Option<Seq<char>> {
    match s {
        Some(t) => if t.len() > 0 {
            Some(t)
        } else {
            None
        },
        None => None,
    }
}

/// Where the generated audio is: in the first object of the answer, its
/// `url` when that is a non-empty string, else its `path` when that is one.
pub open spec fn audio_location(items: Seq<JsonValue>) -> Result<Seq<char>, CloudError> {
    match first_object(items) {
        None => Err(CloudError::NoAudioFileData),
        Some(m) => match non_empty(member_str(m, "url"@)) {
            Some(u) => Ok(u),
            None => match non_empty(member_str(m, "path"@)) {
                Some(p) => Ok(p),
                None => Err(CloudError::NoAudioUrl),
            },
        },
    }
}

/// Picks the address of the generated audio from a `/generate` answer: see
/// [`audio_location`].
pub fn select_audio_url(items: &Vec<JsonValue>) -> (r: Result<String, CloudError>)
    ensures
        match r {
            Ok(s) => audio_location(items@) == Ok::<Seq<char>, CloudError>(s@),
            Err(e) => audio_location(items@) == Err::<Seq<char>, CloudError>(e),
        },
{
    let members = match find_first_object(items) {
        Some(m) => m,
        None => {
            return Err(CloudError::NoAudioFileData);
        },
    };
    if let Some(u) = find_member_str(members, "url") {
        if !u.as_str().is_empty() {
            return Ok(u.clone());
        }
    }
    if let Some(p) = find_member_str(members, "path") {
        if !p.as_str().is_empty() {
            return Ok(p.clone());
        }
    }
    Err(CloudError::NoAudioUrl)
}

} // verus!
