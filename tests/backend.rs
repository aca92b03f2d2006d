use tor_v3_vanity::engine::{draw_candidate, run_outcome, validate_targets, worker_continues};
use tor_v3_vanity::{
    format_speed, select_backend_with_config, Backend, BackendMode, CpuBackend, CudaBackend,
    DeviceInfo, ExternalCudaBackend, GeneratorError, HybridBackend,
};

fn devices() -> Vec<DeviceInfo> {
    vec![
        DeviceInfo { name: "GTX 1080".to_string(), multiprocessor_count: 20 },
        DeviceInfo { name: "GTX 1070".to_string(), multiprocessor_count: 15 },
    ]
}

#[test]
fn speeds_are_formatted() {
    assert_eq!(format_speed(0), "0");
    assert_eq!(format_speed(999), "999");
    assert_eq!(format_speed(1_000), "1.0K");
    assert_eq!(format_speed(1_500_000), "1.5M");
    assert_eq!(format_speed(1_050_000), "1.1M");
    assert_eq!(format_speed(999_999), "1000.0K");
    assert_eq!(format_speed(2_000_000_000), "2.0B");
    assert_eq!(format_speed(u64::MAX), "18446744073.7B");
}

#[test]
fn cpu_backend_info() {
    let info = CpuBackend::with_threads(4).info();
    assert_eq!(info.name, "CPU (4 threads)");
    assert_eq!(info.estimated_speed, 2_000_000);
    assert_eq!(CpuBackend::with_threads(usize::MAX).info().estimated_speed, u64::MAX);
    assert!(CpuBackend::new().thread_count() >= 1);
}

#[test]
fn cuda_backend_info() {
    assert!(matches!(CudaBackend::from_devices(&vec![]), Err(GeneratorError::Cuda(_))));
    let two = CudaBackend::from_devices(&devices()).unwrap().info();
    assert_eq!(two.name, "CUDA (2 GPUs: GTX 1080, GTX 1070)");
    assert_eq!(two.estimated_speed, 175_000_000);
    let one = CudaBackend::from_devices(&devices()[..1].to_vec()).unwrap().info();
    assert_eq!(one.name, "CUDA (GTX 1080)");
}

#[test]
fn hybrid_backend_info() {
    let gpu = CudaBackend::from_devices(&devices()[..1].to_vec()).unwrap();
    let h = HybridBackend::with_cpu_threads(8, &gpu);
    assert_eq!(h.cpu_threads(), 8);
    let info = h.info();
    assert_eq!(info.name, "Hybrid: CUDA (GTX 1080) + CPU (8 threads)");
    assert_eq!(info.estimated_speed, 4_000_000 + 100_000_000);
}

#[test]
fn external_backend() {
    let b = ExternalCudaBackend::with_path("/opt/tool".to_string(), true).unwrap();
    assert_eq!(b.exe_path(), "/opt/tool");
    assert_eq!(b.info().estimated_speed, 100_000_000);
    match ExternalCudaBackend::with_path("/nowhere".to_string(), false) {
        Err(GeneratorError::Cuda(m)) => assert_eq!(m, "CUDA executable not found at: /nowhere"),
        _ => panic!("expected an error"),
    }
}

#[test]
fn auto_without_gpu_is_cpu() {
    let none = || Err(GeneratorError::Cuda("No CUDA devices found".to_string()));
    match select_backend_with_config(BackendMode::Auto, 3, none()) {
        Ok(Backend::Cpu(c)) => assert_eq!(c.thread_count(), 3),
        _ => panic!("expected the CPU backend"),
    }
    assert!(matches!(select_backend_with_config(BackendMode::Cuda, 3, none()), Err(GeneratorError::Cuda(_))));
    assert!(matches!(select_backend_with_config(BackendMode::Hybrid, 3, none()), Err(GeneratorError::Cuda(_))));
    assert!(matches!(select_backend_with_config(BackendMode::Cpu, 3, none()), Ok(Backend::Cpu(_))));
    let gpu = CudaBackend::from_devices(&devices()).unwrap();
    match select_backend_with_config(BackendMode::Auto, 2, Ok(gpu)) {
        Ok(b @ Backend::Hybrid(_)) => assert!(b.info().name.starts_with("Hybrid: CUDA (2 GPUs")),
        _ => panic!("expected the hybrid backend"),
    }
    assert_eq!(BackendMode::default(), BackendMode::Auto);
}

#[test]
fn auto_without_gpu_finds_two_chars() {
    let none = Err(GeneratorError::Cuda("No CUDA devices found".to_string()));
    let backend = select_backend_with_config(BackendMode::Auto, 1, none).unwrap();
    assert!(matches!(backend, Backend::Cpu(_)));
    assert_eq!(backend.info().name, "CPU (1 threads)");
    let mut targets = validate_targets(&vec!["ab".to_string()]).unwrap();
    let mut draws = 0;
    let mut found = None;
    while worker_continues(false, targets.len()) {
        draws += 1;
        assert!(draws < 1_000_000);
        let c = draw_candidate().unwrap();
        if let Some(t) = targets.claim(&c.onion) {
            found = Some((t, c));
        }
    }
    let (t, c) = found.unwrap();
    assert_eq!(t.pattern, "ab");
    assert!(c.onion.starts_with("ab"));
    assert!(run_outcome(false, targets.len(), None).is_ok());
}

#[test]
fn error_messages() {
    assert_eq!(GeneratorError::Stopped.message(), "Generation stopped by user");
    assert_eq!(GeneratorError::InvalidPrefix("!x".to_string()).message(), "Invalid prefix: !x");
}
