use dcp_provider::checks::{
    disk_report, disk_usage, elapsed_time, gateway_pid, installed_models, linux_ram, live_daemon,
    mac_ram, mlx_server_pid, ollama_report, resident_mb, running_models, uptime_since,
    windows_ram, RamUsage, system_chip, smi_memory_used_mb,
    smi_gpu_status,
};
use dcp_provider::json::{JsonMember, JsonNumber, JsonValue};

fn obj(members: Vec<(&str, JsonValue)>) -> JsonValue {
    JsonValue::Object(
        members
            .into_iter()
            .map(|(k, v)| JsonMember { key: k.to_string(), value: v })
            .collect(),
    )
}

fn s(v: &str) -> JsonValue {
    JsonValue::Str(v.to_string())
}

fn n(v: u64) -> JsonValue {
    JsonValue::Number(JsonNumber { as_i64: Some(v as i64), as_u64: Some(v) })
}

const DF: &str = "Filesystem      Size  Used Avail Use% Mounted on\n/dev/nvme0n1p2  915G  850G   19G  98% /\n";

#[test]
fn disk_sentences() {
    assert_eq!(
        disk_report(DF),
        "Disk is CRITICAL — 98% used, only 19G free. I should clean old logs and Ollama cache."
    );
    assert_eq!(
        disk_report("h\n/dev/sda1 100G 80G 20G 80% /\n"),
        "Disk at 80% used, 20G free. Getting full. Will clean up old logs tonight."
    );
    assert_eq!(
        disk_report("h\n/dev/sda1 100G 10G 90G 10% /\n"),
        "Disk is fine. 10% used, 90G free. Plenty of room."
    );
    assert_eq!(
        disk_report("h\n/dev/sda1 100G 10G 90G n/a /\n"),
        "Disk is fine. 0% used, 90G free. Plenty of room."
    );
    assert_eq!(disk_report("only one line"), "Couldn't read disk info.");
    assert_eq!(disk_report("h\nshort line\n"), "Couldn't read disk info.");
}

#[test]
fn disk_figures() {
    let d = disk_usage(DF);
    assert_eq!((d.total.as_str(), d.used.as_str(), d.free.as_str(), d.percent), ("915G", "850G", "19G", 98));
    let none = disk_usage("");
    assert_eq!((none.total.as_str(), none.used.as_str(), none.free.as_str(), none.percent), ("?", "?", "?", 0));
}

#[test]
fn linux_memory() {
    let out = "               total        used        free      shared  buff/cache   available\nMem:           64282        9876       40000         123       14406       53600\nSwap:           2047           0        2047\n";
    assert_eq!(linux_ram(out), RamUsage { total_mb: 64282, used_mb: 9876, free_mb: 40000 });
    assert_eq!(linux_ram("nothing"), RamUsage { total_mb: 0, used_mb: 0, free_mb: 0 });
}

#[test]
fn windows_memory() {
    let v = obj(vec![("TotalVisibleMemorySize", n(33_456_128)), ("FreePhysicalMemory", n(20_000_000))]);
    assert_eq!(
        windows_ram(Some(&v)),
        RamUsage { total_mb: 32672, used_mb: 13140, free_mb: 19531 }
    );
    assert_eq!(windows_ram(None), RamUsage { total_mb: 0, used_mb: 0, free_mb: 0 });
}

#[test]
fn mac_memory() {
    let vm = "Mach Virtual Memory Statistics: (page size of 16384 bytes)\nPages free:                               10000.\nPages active:                            200000.\nPages inactive:                           54000.\nPages speculative:                          000.\nPages free:                               64000.\n";
    let r = mac_ram("34359738368\n", vm);
    // (64000 + 54000 + 0) pages of 16 KiB = 1843.75 MiB.
    assert_eq!(r, RamUsage { total_mb: 32768, used_mb: 32768 - 1843, free_mb: 1843 });
}

#[test]
fn engine_report() {
    assert_eq!(
        ollama_report(false, "", ""),
        "Ollama is DOWN. Not responding on localhost:11434. Say 'fix ollama' and I'll restart it."
    );
    assert_eq!(
        ollama_report(true, "{\"models\":[{\"name\":\"qwen3:8b\"}]}", "{\"models\":[{\"model\":\"qwen3:8b\"}]}"),
        "Ollama is UP and responding. Models installed: {\"models\":[{\"name\":\"qwen3:8b\"}]}. Running processes: active inference."
    );
    let long = format!("{{\"name\":\"{}\"}}", "x".repeat(200));
    let r = ollama_report(true, &long, "{}");
    assert_eq!(r, format!("Ollama is UP and responding. Models installed: {}. Running processes: idle, ready for jobs.", &long[..100]));
    assert_eq!(
        ollama_report(true, "{}", ""),
        "Ollama is UP and responding. Models installed: checking.... Running processes: idle, ready for jobs."
    );
}

#[test]
fn engine_models() {
    let tags = obj(vec![(
        "models",
        JsonValue::Array(vec![obj(vec![("name", s("qwen3:8b"))]), obj(vec![("size", n(1))]), obj(vec![("name", s("qwen3:4b"))])]),
    )]);
    assert_eq!(installed_models(Some(&tags)), vec!["qwen3:8b".to_string(), "qwen3:4b".to_string()]);
    assert!(installed_models(None).is_empty());
    assert!(installed_models(Some(&obj(vec![]))).is_empty());
    let ps = obj(vec![(
        "models",
        JsonValue::Array(vec![obj(vec![("name", s("qwen3:8b")), ("size", n(6_000_000_000)), ("size_vram", n(5_500_000_000))]), obj(vec![])]),
    )]);
    let running = running_models(Some(&ps));
    assert_eq!(running.len(), 2);
    assert_eq!(running[0].name, "qwen3:8b");
    assert_eq!(running[0].size_mb, 5722);
    assert_eq!(running[0].vram_mb, 5245);
    assert_eq!(running[1].name, "?");
    assert_eq!(running[1].size_mb, 0);
}

#[test]
fn gateway_uptime() {
    assert_eq!(gateway_pid("  4242\n4243\n"), Some("4242".to_string()));
    assert_eq!(gateway_pid("\n"), None);
    assert_eq!(elapsed_time(" 02:03:04\n"), Some("02:03:04".to_string()));
    assert_eq!(elapsed_time(""), None);
    assert_eq!(uptime_since("2025-03-01T08:15:42.123Z"), "since 2025-03-01 08:15");
}

#[test]
fn live_metric_counts() {
    assert_eq!(mlx_server_pid("812\n900\n"), Some(812));
    assert_eq!(mlx_server_pid(""), None);
    assert_eq!(mlx_server_pid("abc"), None);
    assert_eq!(resident_mb(" 2048000\n"), Some(2000));
    assert_eq!(resident_mb("-"), None);
    assert_eq!(live_daemon(Some(5), true), (Some(5), true));
    assert_eq!(live_daemon(Some(5), false), (None, false));
    assert_eq!(live_daemon(None, true), (None, false));
}

#[test]
fn mac_chip_for_system_check() {
    let overview = "Hardware Overview:\n\n      Model Name: MacBook Air\n      Chip: Apple M3\n      Memory: 16 GB\n";
    assert_eq!(system_chip(overview), "Apple M3");
    assert_eq!(system_chip("Model Name: Mac mini\n"), "Apple Silicon");
    assert_eq!(system_chip(""), "Apple Silicon");
}

#[test]
fn ollama_report_without_model_names_quotes_nothing() {
    let tags = "€".repeat(40);
    assert_eq!(
        ollama_report(true, &tags, "{}"),
        "Ollama is UP and responding. Models installed: checking.... Running processes: idle, ready for jobs."
    );
}

#[test]
fn smi_memory_used() {
    assert_eq!(smi_memory_used_mb("61, 35, 4021\n"), Some(4021));
    assert_eq!(smi_memory_used_mb(" 61 , 35 ,  +12 "), Some(12));
    assert_eq!(smi_memory_used_mb("61, 35"), None);
    assert_eq!(smi_memory_used_mb("61, 35, N/A"), None);
}

#[test]
fn smi_gpu_status_fields() {
    let g = smi_gpu_status("NVIDIA GeForce RTX 4090, 45, 1024, 24564, 3\n").unwrap();
    assert_eq!(g.model, "NVIDIA GeForce RTX 4090");
    assert_eq!(g.vram_used_mb, Some(1024));
    assert_eq!(g.vram_total_mb, Some(24564));
    let partial = smi_gpu_status("RTX, 45, [N/A], 8192, 0").unwrap();
    assert_eq!(partial.vram_used_mb, None);
    assert_eq!(partial.vram_total_mb, Some(8192));
    assert!(smi_gpu_status("RTX, 45, 1024").is_none());
}
