use cloudfits::hardware::{estimate_tdp_watts, parse_nvidia_smi, parse_rocm_smi, tdp_watts_from_lowercase};

#[test]
fn tdp_by_gpu_name() {
    assert_eq!(estimate_tdp_watts(Some("NVIDIA A100-SXM4-80GB"), 64), 400);
    assert_eq!(estimate_tdp_watts(Some("NVIDIA H100 PCIe"), 64), 700);
    assert_eq!(estimate_tdp_watts(Some("NVIDIA GeForce RTX 4090"), 16), 450);
    assert_eq!(estimate_tdp_watts(Some("NVIDIA GeForce RTX 3090"), 16), 350);
    assert_eq!(estimate_tdp_watts(Some("NVIDIA A10G"), 8), 150);
    assert_eq!(estimate_tdp_watts(Some("Apple Silicon"), 8), 250);
    assert_eq!(tdp_watts_from_lowercase(Some("NVIDIA A100"), 8), 250);
}

#[test]
fn tdp_without_gpu() {
    assert_eq!(estimate_tdp_watts(None, 8), 70);
    assert_eq!(estimate_tdp_watts(None, 0), 30);
    assert_eq!(estimate_tdp_watts(None, usize::MAX), 30 + 5 * usize::MAX as u128);
}

#[test]
fn nvidia_output() {
    assert_eq!(
        parse_nvidia_smi("NVIDIA GeForce RTX 4090, 24564\n"),
        Some(("NVIDIA GeForce RTX 4090".to_string(), "24564".to_string()))
    );
    assert_eq!(
        parse_nvidia_smi("  NVIDIA A100 ,\t81920 \r\nNVIDIA A100, 81920\n"),
        Some(("NVIDIA A100".to_string(), "81920".to_string()))
    );
    assert_eq!(parse_nvidia_smi(""), None);
    assert_eq!(parse_nvidia_smi("\nNVIDIA A100, 81920"), None);
    assert_eq!(parse_nvidia_smi("NVIDIA A100 81920"), None);
    assert_eq!(parse_nvidia_smi("a, b, 3"), None);
    assert_eq!(parse_nvidia_smi("NVIDIA A100, [N/A]"), None);
}

#[test]
fn rocm_output() {
    assert_eq!(
        parse_rocm_smi("GPU[0] : VRAM Total Used Memory (B): 1234 bytes\n"),
        None
    );
    assert_eq!(
        parse_rocm_smi("GPU[0]\t\t: Used memory: 12.5 GB\n"),
        Some("12.5".to_string())
    );
    assert_eq!(parse_rocm_smi("Used memory: 12.5"), None);
    assert_eq!(parse_rocm_smi("Used memory 12.5 GB"), None);
    assert_eq!(parse_rocm_smi("nothing here"), None);
}
