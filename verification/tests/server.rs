use std::path::PathBuf;
use yappr::server::{
    binary_candidates, download_percent, download_start, download_url, launch_files,
    model_path_matches, model_paths_from, model_snapshots_in, percent_code, port_taken_error,
    range_header, repo_dir_name, server_args, serves_model, ModelPaths, SnapshotEntry,
};

#[test]
fn accepts_exact_or_suffix_model_path_match() {
    let configured = PathBuf::from("/cache/models/gemma-4-E2B_q4_0-it.gguf");
    let configured = configured.to_str().unwrap();

    assert!(model_path_matches(
        "/cache/models/gemma-4-E2B_q4_0-it.gguf",
        configured
    ));
    assert!(model_path_matches(
        "/private/cache/models/gemma-4-E2B_q4_0-it.gguf",
        configured
    ));
}

#[test]
fn rejects_different_model_path() {
    let configured = PathBuf::from("/cache/models/gemma-4-E2B_q4_0-it.gguf");
    let configured = configured.to_str().unwrap();

    assert!(!model_path_matches(
        "/cache/models/gemma-4-E4B_q4_0-it.gguf",
        configured
    ));
}

#[test]
fn progress_reads_back_as_percent() {
    assert_eq!(download_percent(percent_code(50, Some(200))), Some(25));
    assert_eq!(download_percent(percent_code(300, Some(200))), Some(100));
    assert_eq!(download_percent(percent_code(0, Some(7))), Some(0));
    assert_eq!(download_percent(percent_code(10, None)), None);
    assert_eq!(download_percent(255), None);
}

#[test]
fn downloads_resume_after_partial_files() {
    assert_eq!(range_header(0), None);
    assert_eq!(range_header(1024).as_deref(), Some("bytes=1024-"));
    assert_eq!(download_start(true, 100, Some(900)), (100, Some(1000)));
    assert_eq!(download_start(false, 100, Some(900)), (0, Some(900)));
    assert_eq!(download_start(false, 100, Some(0)), (0, None));
    assert_eq!(download_start(true, 100, None), (100, None));
    assert_eq!(
        download_url("google/gemma", "w.gguf"),
        "https://huggingface.co/google/gemma/resolve/main/w.gguf"
    );
}

#[test]
fn model_files_live_in_the_hub_cache() {
    assert_eq!(repo_dir_name("google/gemma-4"), "models--google--gemma-4");
    assert_eq!(
        model_snapshots_in("google/gemma-4", Some("/Users/me")),
        "/Users/me/.cache/huggingface/hub/models--google--gemma-4/snapshots"
    );
    assert_eq!(
        model_snapshots_in("a/b", None),
        "./.cache/huggingface/hub/models--a--b/snapshots"
    );
    let entries = vec![
        SnapshotEntry { root: "/s/one".to_string(), has_weights: true, has_mmproj: false },
        SnapshotEntry { root: "/s/two".to_string(), has_weights: true, has_mmproj: true },
        SnapshotEntry { root: "/s/three".to_string(), has_weights: false, has_mmproj: false },
    ];
    let paths = model_paths_from(&entries, "w.gguf", "m.gguf");
    assert_eq!(paths.weights.as_deref(), Some("/s/two/w.gguf"));
    assert_eq!(paths.mmproj.as_deref(), Some("/s/two/m.gguf"));
    assert!(paths.complete());
    let missing = model_paths_from(&entries[..1].iter().map(|e| SnapshotEntry { root: e.root.clone(), has_weights: e.has_weights, has_mmproj: e.has_mmproj }).collect(), "w.gguf", "m.gguf");
    assert!(!missing.complete());
    assert_eq!(
        launch_files(missing).err().as_deref(),
        Some("audio mmproj not found in Hugging Face cache; download the configured model")
    );
    assert_eq!(
        launch_files(ModelPaths { weights: None, mmproj: None }).err().as_deref(),
        Some("model weights not found in Hugging Face cache; download the configured model")
    );
}

#[test]
fn server_launch_arguments() {
    let args = server_args("/w.gguf", "/m.gguf", "8192", "99", 8089);
    assert_eq!(
        args,
        ["-m", "/w.gguf", "--mmproj", "/m.gguf", "-fa", "on", "--jinja", "-c", "8192", "-ngl", "99", "--port", "8089"]
    );
    assert_eq!(
        port_taken_error(8089),
        "port 8089 already has a llama-server running with a different model; stop it before launching Yappr"
    );
    assert!(serves_model(Some("/x/m.gguf"), "m.gguf"));
    assert!(!serves_model(None, "m.gguf"));
}

#[test]
fn binary_lookup_order() {
    let dirs = vec!["/usr/bin".to_string(), "/opt/bin".to_string()];
    assert_eq!(binary_candidates("~/bin/llama", Some("/home/u"), &dirs), ["/home/u/bin/llama"]);
    assert_eq!(
        binary_candidates("auto", Some("/home/u"), &dirs),
        ["/home/u/.yappr/bin/llama-server", "/usr/bin/llama-server", "/opt/bin/llama-server"]
    );
    assert_eq!(binary_candidates("  ", None, &Vec::new()), ["~/.yappr/bin/llama-server"]);
}
