use kizuna::platform::windows::architecture::{ArchitectureFeature, ArchitectureOptimizer, WindowsArchitecture};
use kizuna::platform::windows::installer::{format_upgrade_code, InstallerManager};
use kizuna::platform::windows::networking::{NetworkAdapter, WindowsNetworking};
use kizuna::platform::windows::notifications::{
    NotificationDuration, NotificationManager, NotificationScenario, ToastNotification,
};
use kizuna::platform::windows::performance::PerformanceOptimizer;
use kizuna::platform::windows::registry::RegistryManager;

#[test]
fn test_architecture_optimizer() {
    let optimizer = ArchitectureOptimizer::default();
    let config = optimizer.apply_optimizations();
    assert!(config.is_ok());
}

#[test]
fn test_registry_manager_creation() {
    let registry = RegistryManager::new();
    assert_eq!(registry.app_key_path, "Software\\Kizuna");
}

#[test]
fn test_networking_manager_creation() {
    let networking = WindowsNetworking::new();
    // Just verify it can be created
    drop(networking);
}

#[test]
fn test_installer_manager_creation() {
    let installer = InstallerManager::new(
        "TestApp".to_string(),
        "1.0.0".to_string(),
        "TestPublisher".to_string(),
    );
    let msi_config = installer.create_msi_config();
    assert!(msi_config.is_ok());
    let config = msi_config.unwrap();
    assert_eq!(config.product_name, "TestApp");
    assert_eq!(config.product_version, "1.0.0");
}

#[test]
fn test_msix_config_creation() {
    let installer = InstallerManager::new(
        "TestApp".to_string(),
        "1.0.0".to_string(),
        "TestPublisher".to_string(),
    );
    let msix_config = installer.create_msix_config();
    assert!(msix_config.is_ok());
    let config = msix_config.unwrap();
    assert_eq!(config.package_name, "TestApp");
}

#[test]
fn test_wix_xml_generation() {
    let installer = InstallerManager::new(
        "TestApp".to_string(),
        "1.0.0".to_string(),
        "TestPublisher".to_string(),
    );
    let config = installer.create_msi_config().unwrap();
    let xml = installer.generate_wix_xml(&config);
    assert!(xml.is_ok());
    let xml_content = xml.unwrap();
    assert!(xml_content.contains("TestApp"));
    assert!(xml_content.contains("1.0.0"));
}

#[test]
fn test_appx_manifest_generation() {
    let installer = InstallerManager::new(
        "TestApp".to_string(),
        "1.0.0".to_string(),
        "TestPublisher".to_string(),
    );
    let config = installer.create_msix_config().unwrap();
    let manifest = installer.generate_appx_manifest(&config);
    assert!(manifest.is_ok());
    let manifest_content = manifest.unwrap();
    assert!(manifest_content.contains("TestApp"));
}

#[test]
fn test_notification_manager_creation() {
    let notifications = NotificationManager::new("TestApp".to_string());
    let toast = ToastNotification {
        title: "Test".to_string(),
        body: "Test notification".to_string(),
        image_url: None,
        actions: vec![],
        audio: None,
        duration: NotificationDuration::Short,
        scenario: NotificationScenario::Default,
    };
    let xml = notifications.generate_toast_xml(&toast);
    assert!(xml.contains("Test"));
    assert!(xml.contains("Test notification"));
}

#[test]
fn test_performance_optimizer() {
    let optimizer = PerformanceOptimizer::new();
    let io_opts = optimizer.optimize_io();
    assert!(io_opts.is_ok());
    let mem_opts = optimizer.optimize_memory();
    assert!(mem_opts.is_ok());
    let net_opts = optimizer.optimize_network();
    assert!(net_opts.is_ok());
}

#[test]
fn upgrade_code_is_a_braced_guid_of_the_hash() {
    assert_eq!(format_upgrade_code(0), "{00000000-0000-0000-0000-000000000000}");
    assert_eq!(
        format_upgrade_code(0x0123_4567_89AB_CDEF),
        "{01234567-89AB-CDEF-0123-456789ABCDEF}"
    );
    let installer = InstallerManager::new("A".to_string(), "1".to_string(), "P".to_string());
    let code = installer.create_msi_config().unwrap().upgrade_code;
    assert_eq!(code.len(), 38);
    assert!(code.starts_with('{') && code.ends_with('}'));
}

#[test]
fn optimizations_per_architecture() {
    let x64 = ArchitectureOptimizer::with_architecture(WindowsArchitecture::X64, 8).apply_optimizations().unwrap();
    assert!(x64.use_avx && x64.use_hardware_aes && x64.use_simd);
    assert_eq!(x64.thread_pool_size, 8);
    let arm = ArchitectureOptimizer::with_architecture(WindowsArchitecture::ARM64, 6).apply_optimizations().unwrap();
    assert!(arm.use_neon && arm.power_efficient);
    let x86 = ArchitectureOptimizer::with_architecture(WindowsArchitecture::X86, 16).apply_optimizations().unwrap();
    assert_eq!(x86.thread_pool_size, 4);
    let unknown = ArchitectureOptimizer::default().apply_optimizations().unwrap();
    assert_eq!(unknown.thread_pool_size, 2);
    assert_eq!(WindowsArchitecture::ARM64.as_str(), "ARM64");
    assert!(WindowsArchitecture::X64.supports_feature(ArchitectureFeature::AVX));
    assert!(!WindowsArchitecture::X86.supports_feature(ArchitectureFeature::NEON));
    let sizes = ArchitectureOptimizer::with_architecture(WindowsArchitecture::X64, 1).get_buffer_sizes();
    assert_eq!(sizes.network_buffer, 65536);
}

#[test]
fn connection_status_counts_adapters() {
    let networking = WindowsNetworking::new();
    let down = NetworkAdapter { name: "eth0".to_string(), description: "d".to_string(), status: "Down".to_string() };
    let up = NetworkAdapter { name: "wlan0".to_string(), description: "d".to_string(), status: "Up".to_string() };
    let none = networking.connection_status_from(&vec![down.clone()]);
    assert!(!none.connected);
    assert_eq!(none.connection_type, "None");
    let some = networking.connection_status_from(&vec![down, up]);
    assert!(some.connected);
    assert_eq!(some.connection_type, "Ethernet/WiFi");
    assert_eq!(some.adapter_count, 2);
}
