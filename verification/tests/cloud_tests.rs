use vox_lab::cloud::{
    generate_arguments, select_audio_url, CloudError, VoxCPMCloudConfig, DEFAULT_API_URL,
    TARGET_SAMPLE_RATE,
};
use vox_lab::gradio::FileData;
use vox_lab::json::JsonValue;

fn s(x: &str) -> JsonValue {
    JsonValue::Str(x.to_string())
}

fn obj(members: Vec<(&str, JsonValue)>) -> JsonValue {
    JsonValue::Object(members.into_iter().map(|(k, v)| (k.to_string(), v)).collect())
}

#[test]
fn config_defaults() {
    let c = VoxCPMCloudConfig::default();
    assert_eq!(c.base_url(), DEFAULT_API_URL);
    assert_eq!(c.base_url(), "https://voxcpm.modelbest.cn");
    assert_eq!(c.control_instruction_or_default(), "");
    assert_eq!(TARGET_SAMPLE_RATE, 48000);
}

#[test]
fn config_given_values() {
    let c = VoxCPMCloudConfig {
        api_url: Some("http://127.0.0.1:19112".to_string()),
        control_instruction: Some("warm voice".to_string()),
    };
    assert_eq!(c.base_url(), "http://127.0.0.1:19112");
    assert_eq!(c.control_instruction_or_default(), "warm voice");
}

#[test]
fn generate_arguments_follow_the_endpoint_order() {
    let reference = FileData { path: "/srv/ref.wav".to_string(), url: "http://h/gradio_api/file=/srv/ref.wav".to_string() };
    let args = generate_arguments("hello", "calm", &reference, Some("ref text"), JsonValue::Number("2.0".to_string()));
    assert_eq!(
        args,
        vec![
            s("hello"),
            s("calm"),
            obj(vec![
                ("path", s("/srv/ref.wav")),
                ("url", s("http://h/gradio_api/file=/srv/ref.wav")),
                ("meta", obj(vec![("_type", s("gradio.FileData"))])),
            ]),
            JsonValue::Bool(false),
            s("ref text"),
            JsonValue::Number("2.0".to_string()),
            JsonValue::Bool(false),
            JsonValue::Bool(false),
            JsonValue::Number("10".to_string()),
            s(""),
        ]
    );
}

#[test]
fn generate_arguments_without_prompt_text() {
    let args = generate_arguments("t", "", &FileData::default(), None, JsonValue::Null);
    assert_eq!(args[4], s(""));
    assert_eq!(args[5], JsonValue::Null);
}

#[test]
fn audio_url_prefers_url_then_path() {
    let items = vec![JsonValue::Null, obj(vec![("path", s("/p.wav")), ("url", s("http://u.wav"))]), JsonValue::Null];
    assert_eq!(select_audio_url(&items), Ok("http://u.wav".to_string()));
    let items = vec![obj(vec![("path", s("/p.wav")), ("url", s(""))])];
    assert_eq!(select_audio_url(&items), Ok("/p.wav".to_string()));
    let items = vec![obj(vec![("path", s("/p.wav")), ("url", JsonValue::Null)])];
    assert_eq!(select_audio_url(&items), Ok("/p.wav".to_string()));
}

#[test]
fn audio_url_errors() {
    assert_eq!(select_audio_url(&vec![]), Err(CloudError::NoAudioFileData));
    assert_eq!(select_audio_url(&vec![JsonValue::Null, s("x")]), Err(CloudError::NoAudioFileData));
    let items = vec![obj(vec![("path", s("")), ("url", s(""))]), obj(vec![("url", s("http://later"))])];
    assert_eq!(select_audio_url(&items), Err(CloudError::NoAudioUrl));
}
