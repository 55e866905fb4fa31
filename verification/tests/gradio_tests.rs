use vox_lab::gradio::{
    file_data_from_paths, is_success, parse_upload_response, prediction_result, FileData,
    GradioEndpoint, GradioError, SseError, SseParser, SseStep,
};
use vox_lab::json::JsonValue;

fn feed_all(lines: &[&str]) -> SseStep {
    let mut p = SseParser::new();
    for line in lines {
        let step = p.feed(line);
        if step != SseStep::Continue {
            return step;
        }
    }
    SseStep::Continue
}

#[test]
fn endpoint_drops_trailing_slashes() {
    let e = GradioEndpoint::new("https://voxcpm.modelbest.cn//");
    assert_eq!(e.base_url(), "https://voxcpm.modelbest.cn");
    let same = GradioEndpoint::new(e.base_url());
    assert_eq!(same.base_url(), e.base_url());
}

#[test]
fn endpoint_urls() {
    let e = GradioEndpoint::new("http://127.0.0.1:19112/");
    assert_eq!(e.upload_url(), "http://127.0.0.1:19112/gradio_api/upload");
    assert_eq!(e.call_url("/generate"), "http://127.0.0.1:19112/gradio_api/call/generate");
    assert_eq!(
        e.stream_url("/generate", "abc123"),
        "http://127.0.0.1:19112/gradio_api/call/generate/abc123"
    );
    assert_eq!(
        e.file_url("/tmp/gradio/x.wav"),
        "http://127.0.0.1:19112/gradio_api/file=/tmp/gradio/x.wav"
    );
}

#[test]
fn success_statuses() {
    assert!(is_success(200));
    assert!(is_success(299));
    assert!(!is_success(199));
    assert!(!is_success(300));
    assert!(!is_success(404));
}

#[test]
fn upload_answer_first_path_is_taken() {
    let e = GradioEndpoint::new("http://h");
    let f = parse_upload_response(&e, br#"["/tmp/a.wav", "/tmp/b.wav"]"#).unwrap();
    assert_eq!(
        f,
        FileData {
            path: "/tmp/a.wav".to_string(),
            url: "http://h/gradio_api/file=/tmp/a.wav".to_string(),
        }
    );
}

#[test]
fn upload_answer_without_path_fails() {
    let e = GradioEndpoint::new("http://h");
    assert!(matches!(parse_upload_response(&e, b"[]"), Err(GradioError::UploadEmpty)));
    assert!(matches!(file_data_from_paths(&e, vec![]), Err(GradioError::UploadEmpty)));
}

#[test]
fn upload_answer_that_is_not_a_string_array_fails() {
    let e = GradioEndpoint::new("http://h");
    assert!(matches!(parse_upload_response(&e, b"{\"a\":1}"), Err(GradioError::UploadParse(_))));
    assert!(matches!(parse_upload_response(&e, b"[1]"), Err(GradioError::UploadParse(_))));
    assert!(matches!(parse_upload_response(&e, b"not json"), Err(GradioError::UploadParse(_))));
}

#[test]
fn sse_complete_message_gives_its_data() {
    let step = feed_all(&[
        "event: generating",
        "data: null",
        "",
        "event: complete",
        "data: [{\"url\": \"u\"},",
        "data:  null]  ",
        "",
        "event: error",
        "data: later",
        "",
    ]);
    assert_eq!(step, SseStep::Complete("[{\"url\": \"u\"},null]".to_string()));
}

#[test]
fn sse_error_message_fails() {
    let step = feed_all(&["event: error", "data: boom", ""]);
    assert_eq!(step, SseStep::Failed("boom".to_string()));
}

#[test]
fn sse_other_lines_are_ignored() {
    let step = feed_all(&["id: 7", "retry: 100", ": comment", "event:complete", "data:[]", ""]);
    assert_eq!(step, SseStep::Complete("[]".to_string()));
}

#[test]
fn sse_stream_without_decision_continues() {
    assert_eq!(feed_all(&["event: heartbeat", "data: null", ""]), SseStep::Continue);
    assert_eq!(feed_all(&["event: complete", "data: [1]"]), SseStep::Continue);
}

#[test]
fn sse_finished_message_is_forgotten() {
    // the data of a heartbeat message does not leak into the complete message
    let step = feed_all(&["data: x", "", "event: complete", ""]);
    assert_eq!(step, SseStep::Complete(String::new()));
}

#[test]
fn sse_fields_are_trimmed_of_unicode_whitespace() {
    let step = feed_all(&["event:\u{3000}complete\t", "data:\u{a0}[0]\u{2028}", ""]);
    assert_eq!(step, SseStep::Complete("[0]".to_string()));
}

#[test]
fn sse_first_decision_wins() {
    let step = feed_all(&["event: error", "data: first", "", "event: complete", "data: [1]", ""]);
    assert_eq!(step, SseStep::Failed("first".to_string()));
}

#[test]
fn prediction_result_of_complete_message() {
    let step = feed_all(&["event: complete", "data: [{\"url\": \"http://u\"}, null, 2]", ""]);
    let values = prediction_result(step).unwrap();
    assert_eq!(
        values,
        vec![
            JsonValue::Object(vec![("url".to_string(), JsonValue::Str("http://u".to_string()))]),
            JsonValue::Null,
            JsonValue::Number("2".to_string()),
        ]
    );
}

#[test]
fn prediction_result_errors() {
    assert!(matches!(prediction_result(SseStep::Continue), Err(SseError::StreamEnded)));
    match prediction_result(SseStep::Failed("boom".to_string())) {
        Err(SseError::ErrorEvent(d)) => assert_eq!(d, "boom"),
        other => panic!("unexpected {:?}", other),
    }
    match prediction_result(SseStep::Complete("{\"a\": 1}".to_string())) {
        Err(SseError::CompleteData { raw, .. }) => assert_eq!(raw, "{\"a\": 1}"),
        other => panic!("unexpected {:?}", other),
    }
}
