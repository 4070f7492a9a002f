use remagic::device::is_supported_os_version;
use remagic::path::FilePath;
use remagic::{DeviceProduct, DeviceProfile, DeviceProfileError};

const OS_RELEASE: &str = "ID=codex\nVERSION_ID=5.7.126\nIMG_VERSION=3.27.3.0\n";

fn detect(machine: &str, model: &str, os_release: &str) -> Result<DeviceProfile, DeviceProfileError> {
    DeviceProfile::detect_at(
        &FilePath::new("/"),
        Ok(machine.as_bytes().to_vec()),
        Ok(model.as_bytes().to_vec()),
        Ok(os_release.to_string()),
    )
}

#[test]
fn both_supported_products_have_exact_surface_contracts() {
    let ferrari = DeviceProfile::for_product(DeviceProduct::PaperPro, "5.7.126");
    assert_eq!(
        (
            ferrari.display.logical_width,
            ferrari.display.logical_height
        ),
        (1620, 2160)
    );
    assert_eq!(ferrari.display.qtfb_format, 3);
    let chiappa = DeviceProfile::for_product(DeviceProduct::PaperProMove, "5.7.126");
    assert_eq!(
        (
            chiappa.display.logical_width,
            chiappa.display.logical_height
        ),
        (954, 1696)
    );
    assert_eq!(chiappa.display.qtfb_format, 6);
}

#[test]
fn detection_cross_checks_machine_model_and_os() {
    for (machine, product) in [
        ("reMarkable Ferrari", DeviceProduct::PaperPro),
        ("reMarkable Chiappa", DeviceProduct::PaperProMove),
    ] {
        let profile = detect(machine, &format!("{machine}\0"), OS_RELEASE).unwrap();
        assert_eq!(profile.product, product);
        assert_eq!(profile.os_version, "3.27.3.0");
        assert!(profile.validate().is_ok());
    }
}

#[test]
fn conflicting_identity_fails_closed() {
    assert!(matches!(
        detect("reMarkable Ferrari", "reMarkable Chiappa\0", OS_RELEASE),
        Err(DeviceProfileError::IdentityMismatch { .. })
    ));
}

#[test]
fn kernel_image_version_is_never_mistaken_for_software_version() {
    assert!(matches!(
        detect(
            "reMarkable Ferrari",
            "reMarkable Ferrari\0",
            "VERSION_ID=5.7.126\nIMG_VERSION=3.26.2.1\n",
        ),
        Err(DeviceProfileError::UnsupportedOsVersion { detected, .. })
            if detected == "3.26.2.1"
    ));
}

#[test]
fn only_the_current_stable_release_series_is_supported() {
    assert!(is_supported_os_version("3.27"));
    assert!(is_supported_os_version("3.27.3.0"));
    assert!(!is_supported_os_version("3.270.0.0"));
    assert!(!is_supported_os_version("3.28.0.0"));
}
