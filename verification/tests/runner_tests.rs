use vox_lab::runner::{model_dir_override, plan_after_load, RunError, RunOptions, RunPlan, DEFAULT_OUTPUT_PATH};

fn opts() -> RunOptions {
    RunOptions {
        benchmark_load: false,
        text: Some("hello".to_string()),
        output: None,
        model_dir: String::new(),
        timesteps: 10,
        max_len: 500,
        warmup: false,
        parallel_segments: None,
        ref_audio: String::new(),
    }
}

#[test]
fn model_dir_empty_means_default() {
    assert_eq!(model_dir_override(""), None);
    assert_eq!(model_dir_override("/m"), Some("/m".to_string()));
}

#[test]
fn benchmark_load_stops_after_loading() {
    let mut o = opts();
    o.benchmark_load = true;
    o.text = None;
    assert!(matches!(plan_after_load(o), Ok(RunPlan::LoadOnly)));
}

#[test]
fn missing_text_is_an_error() {
    let mut o = opts();
    o.text = None;
    assert!(matches!(plan_after_load(o), Err(RunError::MissingText)));
}

#[test]
fn generation_plan_defaults() {
    match plan_after_load(opts()) {
        Ok(RunPlan::Generate(p)) => {
            assert_eq!(p.text, "hello");
            assert_eq!(p.output, DEFAULT_OUTPUT_PATH);
            assert_eq!(p.output, "/tmp/voxcpm_out.wav");
            assert_eq!(p.timesteps, 10);
            assert_eq!(p.max_len, 500);
            assert_eq!(p.reference_audio, None);
            assert_eq!(p.parallel_segments, None);
        }
        other => panic!("unexpected {:?}", other),
    }
}

#[test]
fn generation_plan_with_reference_and_output() {
    let mut o = opts();
    o.output = Some("out.wav".to_string());
    o.ref_audio = "ref.wav".to_string();
    o.parallel_segments = Some(8);
    match plan_after_load(o) {
        Ok(RunPlan::Generate(p)) => {
            assert_eq!(p.output, "out.wav");
            assert_eq!(p.reference_audio, Some("ref.wav".to_string()));
            assert_eq!(p.parallel_segments, Some(8));
        }
        other => panic!("unexpected {:?}", other),
    }
}
