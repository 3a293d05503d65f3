use dcp_provider::install::{
    cache_cleanup_script, cached_model_detail, choose_installer, daemon_running_detail,
    eta_suffix, hf_cache_dir_name, hf_eta, mac_engine_and_model, memory_gb, missing_model_message,
    model_for_vram, model_listed, model_metadata, ollama_eta, patch_pth, pull_failed_message,
    pull_start_detail, resolve_vram, smi_memory_text, snapshot_download_script, stale_model_pattern,
    start_outcome, verify_model_registered, DirEntryInfo, InstallerChoice, SlowWatch,
    needs_model_verification, tunnel_progress,
};

#[test]
fn model_by_vram() {
    assert_eq!(model_for_vram(24564), "qwen3:30b-a3b");
    assert_eq!(model_for_vram(20000), "qwen3:30b-a3b");
    assert_eq!(model_for_vram(19999), "qwen3:8b");
    assert_eq!(model_for_vram(12288), "qwen3:8b");
    assert_eq!(model_for_vram(8192), "qwen3:4b");
}

#[test]
fn vram_resolution() {
    assert_eq!(resolve_vram(12288, Some(8192)), 12288);
    assert_eq!(resolve_vram(0, Some(24564)), 24564);
    assert_eq!(resolve_vram(0, Some(0)), 8192);
    assert_eq!(resolve_vram(0, None), 8192);
    assert_eq!(smi_memory_text(" 24,564 \n12288\n"), "24564");
    assert_eq!(smi_memory_text(""), "");
}

#[test]
fn mac_choices() {
    assert_eq!(memory_gb("34359738368\n"), 32);
    assert_eq!(memory_gb("17179869183"), 15);
    let (e, m) = mac_engine_and_model(true, 64);
    assert_eq!((e.as_str(), m.as_str()), ("mlx", "mlx-community/Qwen3-30B-A3B-4bit"));
    let (_, m) = mac_engine_and_model(true, 16);
    assert_eq!(m, "mlx-community/Qwen3-8B-4bit");
    let (_, m) = mac_engine_and_model(true, 8);
    assert_eq!(m, "mlx-community/Qwen3-4B-4bit");
    let (e, m) = mac_engine_and_model(false, 64);
    assert_eq!((e.as_str(), m.as_str()), ("ollama", "qwen3:8b"));
}

#[test]
fn catalogue() {
    assert_eq!(model_metadata("qwen3:8b"), ("Qwen3 8B".to_string(), Some(52)));
    assert_eq!(model_metadata("mlx-community/Qwen3-30B-A3B-4bit"), ("Qwen3 30B-A3B (MLX)".to_string(), Some(164)));
    assert_eq!(model_metadata("llama3"), ("llama3".to_string(), None));
    assert_eq!(cached_model_detail("qwen3:30b-a3b"), "Qwen3 30B-A3B (17.7 GB) — cached");
    assert_eq!(cached_model_detail("qwen3:4b"), "Qwen3 4B (2.5 GB) — cached");
    assert_eq!(cached_model_detail("custom"), "custom (size unknown) — cached");
    assert_eq!(pull_start_detail("qwen3:8b"), "Pulling qwen3:8b (5.2 GB) from registry.ollama.ai");
    assert_eq!(pull_start_detail("other"), "Pulling other (4.0 GB) from registry.ollama.ai");
}

#[test]
fn ollama_time_left() {
    assert_eq!(ollama_eta("pulling 6a0746a1ec1a:  45% ▕███  ▏ 2.1 GB/4.7 GB  12 MB/s  2m53s"), Some(173));
    assert_eq!(ollama_eta("x 53s"), Some(53));
    assert_eq!(ollama_eta("x 1h2m  \n"), Some(3720));
    assert_eq!(ollama_eta("pulling manifest"), None);
    assert_eq!(ollama_eta("1.5s"), Some(15));
    assert_eq!(ollama_eta("x ms"), None);
}

#[test]
fn hugging_face_time_left() {
    assert_eq!(hf_eta("model.safetensors:  45%|████ | 1.8G/4.0G [02:30<03:00, 12.3MB/s]"), Some(180));
    assert_eq!(hf_eta("[00:01<1:02:03, 1.0MB/s]"), Some(3723));
    assert_eq!(hf_eta("[00:01<?, ?it/s]"), None);
    assert_eq!(hf_eta("no bar"), None);
    assert_eq!(hf_eta("[00:01<xx:05]"), Some(5));
}

#[test]
fn time_left_rendering() {
    assert_eq!(eta_suffix(Some(173)), " -- ETA 2m53s");
    assert_eq!(eta_suffix(Some(3720)), " -- ETA 1h02m");
    assert_eq!(eta_suffix(Some(59)), " -- ETA 59s");
    assert_eq!(eta_suffix(Some(60)), " -- ETA 1m00s");
    assert_eq!(eta_suffix(None), "");
}

#[test]
fn slow_download_warned_once() {
    let mut w = SlowWatch::new();
    assert!(!w.observe(Some(true), 0));
    assert!(!w.observe(Some(true), 29_999));
    assert!(w.observe(Some(true), 30_000));
    assert!(!w.observe(Some(true), 60_000));
    assert!(!w.observe(Some(false), 61_000));
    assert_eq!(w.since, None);
    assert!(!w.observe(Some(true), 62_000));
    assert!(!w.observe(Some(true), 100_000));
    assert!(!w.observe(None, 200_000));
    assert!(w.warned);
}

#[test]
fn python_path_file() {
    assert_eq!(
        patch_pth("python311.zip\n.\n#import site\n"),
        Some("python311.zip\n.\nimport site\n".to_string())
    );
    assert_eq!(patch_pth("python311.zip\n.\n"), Some("python311.zip\n.\n\nimport site\n".to_string()));
    assert_eq!(patch_pth("python311.zip\nimport site\n"), None);
}

#[test]
fn installer_reuse() {
    let entries = vec![
        DirEntryInfo { file_name: "notes.txt".to_string(), len: Some(5_000_000_000) },
        DirEntryInfo { file_name: "OllamaSetup (1).EXE".to_string(), len: Some(999_999_999) },
        DirEntryInfo { file_name: "ollama-SETUP.exe".to_string(), len: None },
        DirEntryInfo { file_name: "Old-Setup.Exe".to_string(), len: Some(1_900_000_000) },
    ];
    assert_eq!(choose_installer(Some(1_850_000_000), &entries), InstallerChoice::Canonical);
    assert_eq!(choose_installer(Some(10), &entries), InstallerChoice::Entry(3));
    assert_eq!(choose_installer(None, &entries[..3]), InstallerChoice::Download);
}

#[test]
fn model_cache_names() {
    assert_eq!(hf_cache_dir_name("mlx-community/Qwen3-8B-4bit"), "models--mlx-community--Qwen3-8B-4bit");
    assert_eq!(
        stale_model_pattern(Some("mlx-community/Qwen3-4B-4bit"), "mlx-community/Qwen3-8B-4bit"),
        Some("Qwen3-4B-4bit".to_string())
    );
    assert_eq!(stale_model_pattern(Some("mlx-community/Qwen3-8B-4bit"), "mlx-community/Qwen3-8B-4bit"), None);
    assert_eq!(stale_model_pattern(Some(""), "m"), None);
    assert_eq!(stale_model_pattern(None, "m"), None);
    assert_eq!(
        cache_cleanup_script("Qwen3-4B-4bit"),
        "from huggingface_hub import scan_cache_dir; cache = scan_cache_dir(); [cache.delete_revisions(r.commit_hash) for repo in cache.repos for r in repo.revisions if 'Qwen3-4B-4bit' in repo.repo_id]"
    );
    assert_eq!(
        snapshot_download_script("mlx-community/Qwen3-8B-4bit"),
        "import sys; from huggingface_hub import snapshot_download; snapshot_download('mlx-community/Qwen3-8B-4bit', local_files_only=False)"
    );
}

#[test]
fn start_answers() {
    assert_eq!(start_outcome("ollama", "qwen3:8b", 4242, true), "started:ollama:qwen3:8b:4242:cached");
    assert_eq!(start_outcome("mlx", "m", 1, false), "started:mlx:m:1:downloaded");
    assert_eq!(daemon_running_detail("3.4.1", 77), "Daemon v3.4.1 running (PID 77)");
    let (a, b) = pull_failed_message("qwen3:4b");
    assert_eq!(a, "ollama pull qwen3:4b exited non-zero");
    assert_eq!(b, "ollama pull qwen3:4b failed");
    assert_eq!(
        missing_model_message("qwen3:4b"),
        "Final verification failed: model=qwen3:4b not found in Ollama after pull"
    );
}

#[test]
fn final_verification() {
    let tags = "{\"models\":[{\"name\":\"qwen3:8b\"}]}";
    assert_eq!(verify_model_registered(tags, None, "qwen3:8b"), Ok(()));
    assert_eq!(verify_model_registered("{}", Some("NAME ID\nqwen3:4b abc\n"), "qwen3:4b"), Ok(()));
    assert_eq!(
        verify_model_registered("{}", Some("NAME ID\n"), "qwen3:4b"),
        Err("Final verification failed: model=qwen3:4b not found in Ollama after pull".to_string())
    );
    assert!(model_listed("NAME\nqwen3:8b  1 GB", "qwen3:8b"));
    assert!(!model_listed("", "qwen3:8b"));
}

#[test]
fn tunnel_step_reports() {
    let ok = tunnel_progress(Ok("10.8.0.7".to_string()));
    assert_eq!(ok.detail, "Connected at 10.8.0.7");
    assert_eq!(ok.error, None);
    assert_eq!(ok.log_line, "Step 5: WireGuard active — mesh IP 10.8.0.7");
    assert_eq!(ok.mesh_ip, Some("10.8.0.7".to_string()));
    let failed = tunnel_progress(Err("wg-quick missing".to_string()));
    assert_eq!(failed.detail, "Connected via public endpoint (WireGuard unavailable)");
    assert_eq!(failed.error, Some("wg-quick missing".to_string()));
    assert_eq!(
        failed.log_line,
        "Step 5: WireGuard setup failed: wg-quick missing. Provider online but not routable for inference."
    );
    assert_eq!(failed.mesh_ip, None);
    assert!(needs_model_verification("ollama"));
    assert!(!needs_model_verification("mlx"));
}
