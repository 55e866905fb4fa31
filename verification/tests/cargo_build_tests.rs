use vox_lab::cargo_build::{cargo_build_args, cargo_build_cmdline, workspace_root};

#[test]
fn build_args_plain() {
    assert_eq!(
        cargo_build_args("demucs-burn", "demucs-burn-cpu", &[], false),
        vec!["build", "-p", "demucs-burn", "--bin", "demucs-burn-cpu"]
    );
}

#[test]
fn build_args_with_release_and_features() {
    assert_eq!(
        cargo_build_args("demucs-burn", "demucs-burn-tch", &["tch", "cuda"], true),
        vec![
            "build",
            "-p",
            "demucs-burn",
            "--bin",
            "demucs-burn-tch",
            "--release",
            "--no-default-features",
            "--features",
            "tch,cuda"
        ]
    );
}

#[test]
fn build_cmdline_text() {
    assert_eq!(
        cargo_build_cmdline("voxcpm-burn", "voxcpm-burn-wgpu", &["wgpu"], true),
        "cargo build -p voxcpm-burn --bin voxcpm-burn-wgpu --release --no-default-features --features wgpu"
    );
    assert_eq!(
        cargo_build_cmdline("p", "b", &[], false),
        "cargo build -p p --bin b"
    );
}

#[test]
fn workspace_root_is_two_levels_up() {
    assert_eq!(workspace_root("/home/u/vox-lab/packages/util"), Some("/home/u/vox-lab".to_string()));
    assert_eq!(workspace_root("packages/util"), Some(String::new()));
    assert_eq!(workspace_root("/util"), None);
    assert_eq!(workspace_root(""), None);
}

#[test]
fn build_cmdline_is_cargo_and_the_args() {
    for (features, release) in [(&[][..], false), (&["tch"][..], false), (&["a", "b"][..], true), (&[][..], true)] {
        let args = cargo_build_args("pkg", "bin", features, release);
        let line = cargo_build_cmdline("pkg", "bin", features, release);
        assert_eq!(line, format!("cargo {}", args.join(" ")));
    }
}

#[test]
fn workspace_root_of_relative_and_dotted_paths() {
    assert_eq!(workspace_root("ws.d/packages/vox-core"), Some("ws.d".to_string()));
    assert_eq!(workspace_root("../lab/packages/util"), Some("../lab".to_string()));
}

#[test]
fn workspace_root_ignores_trailing_slashes() {
    assert_eq!(workspace_root("/home/u/vox-lab/packages/util/"), Some("/home/u/vox-lab".to_string()));
    assert_eq!(workspace_root("/home/u/vox-lab/packages/util//"), Some("/home/u/vox-lab".to_string()));
}

#[test]
fn workspace_root_of_short_paths() {
    assert_eq!(workspace_root("/a/b"), Some("/".to_string()));
    assert_eq!(workspace_root("a/b/"), Some(String::new()));
}
