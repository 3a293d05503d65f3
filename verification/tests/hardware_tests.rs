use dcp_provider::hardware::{
    count_or_zero, dxgi_driver_label, estimated_earnings_usd, find_nvidia_smi, gpu_from_smi,
    gpu_info_macos, linux_system_info_with, macos_system_info, number_or_zero,
    select_dxgi_adapter, select_registry_gpu, smi_failure_message, smi_file_candidate_list,
    windows_system_info_with, DxgiAdapter, RegistryDisplayKey, linux_system_info,
    windows_system_info, system_hostname, hostname_or_unknown,
};

fn utf16(s: &str, pad: usize) -> Vec<u16> {
    let mut v: Vec<u16> = s.encode_utf16().collect();
    v.extend(std::iter::repeat(0).take(pad));
    v
}

#[test]
fn apple_silicon_gpu() {
    let overview = "Hardware Overview:\n\n      Model Name: MacBook Pro\n      Chip: Apple M2 Pro\n";
    let g = gpu_info_macos("Apple M2 Pro\n", "arm64\n", "17179869184\n", Some(overview));
    assert_eq!(g.name, "Apple Silicon MacBook Pro");
    assert_eq!(g.vram_mb, 16384);
    assert_eq!(g.driver_version, "macOS Metal");
    assert_eq!(g.compute_capability, "Apple Neural Engine");
    assert!(g.is_apple_silicon);
}

#[test]
fn apple_silicon_without_overview_uses_brand() {
    let g = gpu_info_macos("  Apple M1  ", "arm64", "8589934592", None);
    assert_eq!(g.name, "Apple Silicon Apple M1");
    assert_eq!(g.vram_mb, 8192);
}

#[test]
fn intel_mac_gpu() {
    let g = gpu_info_macos("Intel(R) Core(TM) i7", "x86_64", "17179869184", Some("Chip: X"));
    assert_eq!(g.name, "Intel(R) Core(TM) i7");
    assert_eq!(g.vram_mb, 0);
    assert_eq!(g.compute_capability, "N/A");
    assert!(!g.is_apple_silicon);
}

#[test]
fn nvidia_smi_line() {
    let g = gpu_from_smi("NVIDIA GeForce RTX 4090, 24564, 550.54.14, 8.9\n").unwrap();
    assert_eq!(g.name, "NVIDIA GeForce RTX 4090");
    assert_eq!(g.vram_mb, 24564);
    assert_eq!(g.driver_version, "550.54.14");
    assert_eq!(g.compute_capability, "8.9");
    assert!(!g.is_apple_silicon);
    let odd = gpu_from_smi("GPU, [N/A], 1, 2").unwrap();
    assert_eq!(odd.vram_mb, 0);
}

#[test]
fn nvidia_smi_parse_error() {
    assert_eq!(
        gpu_from_smi("  garbage , 12 \n"),
        Err("nvidia-smi parse error: 'garbage , 12'".to_string())
    );
    assert_eq!(smi_failure_message(" no devices \n"), "nvidia-smi error: no devices");
}

#[test]
fn smi_candidates_on_windows() {
    let entries = vec!["nvam.inf_amd64_1".to_string(), "other".to_string(), "nvdm.inf_x".to_string()];
    let c = smi_file_candidate_list(true, &entries);
    assert_eq!(
        c,
        vec![
            r"C:\Windows\System32\nvidia-smi.exe".to_string(),
            r"C:\Program Files\NVIDIA Corporation\NVSMI\nvidia-smi.exe".to_string(),
            r"C:\Windows\System32\DriverStore\FileRepository\nvam.inf_amd64_1\nvidia-smi.exe"
                .to_string(),
            r"C:\Windows\System32\DriverStore\FileRepository\nvdm.inf_x\nvidia-smi.exe".to_string(),
        ]
    );
    assert!(smi_file_candidate_list(false, &entries).is_empty());
}

#[test]
fn smi_on_path_wins() {
    assert_eq!(find_nvidia_smi(true, &[]), Some("nvidia-smi".to_string()));
    assert_eq!(find_nvidia_smi(false, &[]), None);
    let probed = vec![
        ("C:\\Windows\\System32\\nvidia-smi.exe".to_string(), false),
        ("C:\\Program Files\\NVIDIA Corporation\\NVSMI\\nvidia-smi.exe".to_string(), true),
    ];
    assert_eq!(
        find_nvidia_smi(false, &probed),
        Some("C:\\Program Files\\NVIDIA Corporation\\NVSMI\\nvidia-smi.exe".to_string())
    );
    assert_eq!(find_nvidia_smi(true, &probed), Some("nvidia-smi".to_string()));
    let absent = vec![("x".to_string(), false)];
    assert_eq!(find_nvidia_smi(false, &absent), None);
}

#[test]
fn vendor_id_rendering() {
    assert_eq!(dxgi_driver_label(0x10DE), "DXGI-VendorId:0x10DE");
    assert_eq!(dxgi_driver_label(0x1002), "DXGI-VendorId:0x1002");
    assert_eq!(dxgi_driver_label(0x8086), "DXGI-VendorId:0x8086");
    assert_eq!(dxgi_driver_label(0xAB), "DXGI-VendorId:0x00AB");
    assert_eq!(dxgi_driver_label(0), "DXGI-VendorId:0x0000");
    assert_eq!(dxgi_driver_label(0x12345), "DXGI-VendorId:0x12345");
    assert_eq!(dxgi_driver_label(0x10DE), format!("DXGI-VendorId:{:#06X}", 0x10DEu32));
}

#[test]
fn dxgi_prefers_nvidia() {
    let gib = 1024u64 * 1024 * 1024;
    let adapters = vec![
        DxgiAdapter { description: utf16("Intel UHD", 3), dedicated_video_memory: 0, vendor_id: 0x8086, flags: 0 },
        DxgiAdapter { description: utf16("AMD Radeon", 2), dedicated_video_memory: 16 * gib, vendor_id: 0x1002, flags: 0 },
        DxgiAdapter { description: utf16("NVIDIA RTX 3060", 1), dedicated_video_memory: 12 * gib, vendor_id: 0x10DE, flags: 0 },
        DxgiAdapter { description: utf16("Microsoft Basic Render Driver", 0), dedicated_video_memory: 64 * gib, vendor_id: 0x1414, flags: 2 },
    ];
    // NVIDIA is preferred over a vendor with more memory.
    let g = select_dxgi_adapter(&adapters).unwrap();
    assert_eq!(g.name, "NVIDIA RTX 3060");
    assert_eq!(g.vram_mb, 12288);
    assert_eq!(g.driver_version, "DXGI-VendorId:0x10DE");
    assert_eq!(g.compute_capability, "DXGI");
    let more = vec![
        adapters[1].clone(),
        DxgiAdapter { description: utf16("NVIDIA RTX 4090", 4), dedicated_video_memory: 24 * gib, vendor_id: 0x10DE, flags: 0 },
    ];
    let g2 = select_dxgi_adapter(&more).unwrap();
    assert_eq!(g2.name, "NVIDIA RTX 4090");
    assert_eq!(g2.vram_mb, 24576);
}

#[test]
fn dxgi_nvidia_first_keeps_largest_nvidia() {
    let gib = 1024u64 * 1024 * 1024;
    let adapters = vec![
        DxgiAdapter { description: utf16("NVIDIA RTX 3060", 0), dedicated_video_memory: 12 * gib, vendor_id: 0x10DE, flags: 0 },
        DxgiAdapter { description: utf16("AMD Radeon", 0), dedicated_video_memory: 32 * gib, vendor_id: 0x1002, flags: 0 },
        DxgiAdapter { description: utf16("NVIDIA RTX 4090", 0), dedicated_video_memory: 24 * gib, vendor_id: 0x10DE, flags: 0 },
        DxgiAdapter { description: utf16("NVIDIA T400", 0), dedicated_video_memory: 2 * gib, vendor_id: 0x10DE, flags: 0 },
    ];
    let g = select_dxgi_adapter(&adapters).unwrap();
    assert_eq!(g.name, "NVIDIA RTX 4090");
    assert_eq!(g.vram_mb, 24576);
    assert_eq!(g.driver_version, "DXGI-VendorId:0x10DE");
}

#[test]
fn dxgi_without_nvidia_takes_most_memory() {
    let gib = 1024u64 * 1024 * 1024;
    let adapters = vec![
        DxgiAdapter { description: utf16("Intel Arc", 0), dedicated_video_memory: 8 * gib, vendor_id: 0x8086, flags: 0 },
        DxgiAdapter { description: utf16("AMD Radeon", 0), dedicated_video_memory: 16 * gib, vendor_id: 0x1002, flags: 0 },
        DxgiAdapter { description: utf16("AMD Radeon B", 0), dedicated_video_memory: 16 * gib, vendor_id: 0x1002, flags: 0 },
    ];
    let g = select_dxgi_adapter(&adapters).unwrap();
    assert_eq!(g.name, "AMD Radeon");
    assert_eq!(g.vram_mb, 16384);
}

#[test]
fn dxgi_name_decodes_surrogates() {
    let gib = 1024u64 * 1024 * 1024;
    let mut d: Vec<u16> = "GPU ".encode_utf16().collect();
    d.extend([0xD83D, 0xDE80, 0xD800, 0x41, 0]);
    let adapters = vec![DxgiAdapter { description: d, dedicated_video_memory: 4 * gib, vendor_id: 0x10DE, flags: 0 }];
    let g = select_dxgi_adapter(&adapters).unwrap();
    assert_eq!(g.name, "GPU \u{1F680}\u{FFFD}A");
}

#[test]
fn dxgi_without_discrete_gpu() {
    let adapters = vec![DxgiAdapter {
        description: utf16("Intel UHD", 0),
        dedicated_video_memory: 128 * 1024 * 1024,
        vendor_id: 0x8086,
        flags: 0,
    }];
    assert_eq!(select_dxgi_adapter(&adapters), Err("DXGI: No discrete GPU found".to_string()));
}

#[test]
fn registry_first_nvidia_key_with_memory() {
    let keys = vec![
        RegistryDisplayKey {
            provider_name: Some("Intel Corporation".to_string()),
            driver_desc: Some("Intel UHD".to_string()),
            adapter_string: None,
            memory_size: Some(1 << 30),
            driver_version: None,
        },
        RegistryDisplayKey {
            provider_name: Some("NVIDIA".to_string()),
            driver_desc: None,
            adapter_string: None,
            memory_size: None,
            driver_version: None,
        },
        RegistryDisplayKey {
            provider_name: Some("Nvidia Corp".to_string()),
            driver_desc: None,
            adapter_string: Some("GeForce RTX 3080".to_string()),
            memory_size: Some(10 * (1 << 30)),
            driver_version: Some("31.0.15.5222".to_string()),
        },
    ];
    let g = select_registry_gpu(&keys).unwrap();
    assert_eq!(g.name, "GeForce RTX 3080");
    assert_eq!(g.vram_mb, 10240);
    assert_eq!(g.driver_version, "31.0.15.5222");
    assert_eq!(g.compute_capability, "Registry");
    let none: Vec<RegistryDisplayKey> = vec![keys[0].clone()];
    assert_eq!(
        select_registry_gpu(&none),
        Err("Registry: No NVIDIA GPU with VRAM found".to_string())
    );
}

#[test]
fn registry_defaults() {
    let keys = vec![RegistryDisplayKey {
        provider_name: Some("NVIDIA".to_string()),
        driver_desc: None,
        adapter_string: None,
        memory_size: Some(8 << 30),
        driver_version: None,
    }];
    let g = select_registry_gpu(&keys).unwrap();
    assert_eq!(g.name, "NVIDIA GPU");
    assert_eq!(g.driver_version, "Registry");
}

#[test]
fn earnings_tiers() {
    assert_eq!(estimated_earnings_usd(12288, true), 15);
    assert_eq!(estimated_earnings_usd(16384, true), 35);
    assert_eq!(estimated_earnings_usd(65535, true), 60);
    assert_eq!(estimated_earnings_usd(98304, true), 90);
    assert_eq!(estimated_earnings_usd(8191, false), 10);
    assert_eq!(estimated_earnings_usd(8192, false), 25);
    assert_eq!(estimated_earnings_usd(24564, false), 50);
    assert_eq!(estimated_earnings_usd(32768, false), 80);
}

#[test]
fn earnings_never_drop_with_more_memory() {
    let mut prev = 0;
    for mb in (0..140_000u64).step_by(512) {
        let e = estimated_earnings_usd(mb, false);
        assert!(e >= prev);
        prev = e;
    }
}

#[test]
fn number_helpers() {
    assert_eq!(number_or_zero(" 17179869184\n"), 17179869184);
    assert_eq!(number_or_zero("n/a"), 0);
    assert_eq!(count_or_zero("12\n"), 12);
    assert_eq!(count_or_zero("-1"), 0);
}

#[test]
fn mac_system_facts() {
    let s = macos_system_info(Some("14.4.1\n"), "34359738368\n", "12\n", Some("Apple M2 Max\n"), Some("arm64\n"), "studio".to_string());
    assert_eq!(s.os, "macOS");
    assert_eq!(s.os_version, "14.4.1");
    assert_eq!(s.total_ram_mb, 32768);
    assert_eq!(s.cpu_cores, 12);
    assert_eq!(s.cpu_name, "Apple M2 Max");
    assert_eq!(s.arch, "arm64");
    let unknown = macos_system_info(None, "", "", None, None, "h".to_string());
    assert_eq!(unknown.os_version, "unknown");
    assert_eq!(unknown.cpu_name, "unknown");
    assert_eq!(unknown.arch, "unknown");
    assert_eq!(unknown.total_ram_mb, 0);
}

#[test]
fn linux_system_facts() {
    let os_release = "NAME=\"Ubuntu\"\nPRETTY_NAME=\"Ubuntu 22.04.4 LTS\"\nID=ubuntu\n";
    let s = linux_system_info_with(
        Some(os_release),
        "MemTotal:       65843212 kB\n",
        16,
        Some("model name\t: AMD Ryzen 9 7950X 16-Core Processor\n"),
        Some("x86_64\n"),
        "box".to_string(),
    );
    assert_eq!(s.os, "Linux");
    assert_eq!(s.os_version, "Ubuntu 22.04.4 LTS");
    assert_eq!(s.total_ram_mb, 64300);
    assert_eq!(s.cpu_cores, 16);
    assert_eq!(s.cpu_name, "AMD Ryzen 9 7950X 16-Core Processor");
    assert_eq!(s.arch, "x86_64");
    assert_eq!(s.hostname, "box");
    let bare = linux_system_info_with(Some("ID=arch\n"), "", 1, None, None, "h".to_string());
    assert_eq!(bare.os_version, "Linux");
    assert_eq!(bare.total_ram_mb, 0);
    assert_eq!(bare.cpu_name, "unknown");
}

#[test]
fn windows_system_facts() {
    let mem = "\r\n\r\nTotalPhysicalMemory=34263347200\r\n\r\n";
    let cpu = "\r\nName=13th Gen Intel(R) Core(TM) i9-13900K\r\n";
    let s = windows_system_info_with(
        Some("\r\nMicrosoft Windows [Version 10.0.22631.3447]\r\n"),
        mem,
        32,
        Some(cpu),
        "x86_64",
        "pc".to_string(),
    );
    assert_eq!(s.os, "Windows");
    assert_eq!(s.os_version, "Microsoft Windows [Version 10.0.22631.3447]");
    assert_eq!(s.total_ram_mb, 32676);
    assert_eq!(s.cpu_name, "13th Gen Intel(R) Core(TM) i9-13900K");
    assert_eq!(s.cpu_cores, 32);
    let none = windows_system_info_with(None, "", 4, Some("nothing"), "aarch64", "pc".to_string());
    assert_eq!(none.os_version, "Windows");
    assert_eq!(none.total_ram_mb, 0);
    assert_eq!(none.cpu_name, "unknown");
}

#[test]
fn machine_cpu_count_and_host_name() {
    let l = linux_system_info(None, "MemTotal:       16309080 kB\n", None, Some("x86_64\n"), system_hostname());
    assert!(l.cpu_cores >= 1);
    assert_eq!(l.total_ram_mb, 15926);
    assert_eq!(l.os_version, "Linux");
    assert_eq!(l.arch, "x86_64");
    assert!(!l.hostname.is_empty());
    let w = windows_system_info(None, "\r\nTotalPhysicalMemory=17179869184\r\n", None, "x86_64", "pc".to_string());
    assert!(w.cpu_cores >= 1);
    assert_eq!(w.total_ram_mb, 16384);
    assert_eq!(w.os_version, "Windows");
}

#[test]
fn host_name_fallback() {
    assert_eq!(hostname_or_unknown(Some("provider-box".to_string())), "provider-box");
    assert_eq!(hostname_or_unknown(None), "unknown");
}
