use lite_room::domain::{detect_image_kind, AppConfig, DomainError, ImageId, ImageKind};

#[test]
fn image_id_must_be_positive() {
    assert!(ImageId::new(1).is_ok());
    assert!(matches!(
        ImageId::new(0),
        Err(DomainError::InvalidImageId(0))
    ));
}

#[test]
fn image_kind_detection_works() {
    assert_eq!(detect_image_kind("a.jpg"), ImageKind::Jpeg);
    assert_eq!(detect_image_kind("a.nef"), ImageKind::Raw);
    assert_eq!(detect_image_kind("a.png"), ImageKind::Unsupported);
}

#[test]
fn detect_image_kind_handles_supported_formats() {
    assert_eq!(detect_image_kind("a.jpg"), ImageKind::Jpeg);
    assert_eq!(detect_image_kind("a.jpeg"), ImageKind::Jpeg);
    assert_eq!(detect_image_kind("a.cr2"), ImageKind::Raw);
    assert_eq!(detect_image_kind("a.nef"), ImageKind::Raw);
    assert_eq!(detect_image_kind("a.arw"), ImageKind::Raw);
    assert_eq!(detect_image_kind("a.dng"), ImageKind::Raw);
    assert_eq!(detect_image_kind("a.png"), ImageKind::Unsupported);
}

#[test]
fn default_config_uses_local_catalog_and_cache_paths() {
    let config = AppConfig::default();
    assert_eq!(config.catalog_path, "catalog.sqlite3");
    assert_eq!(config.cache_dir, "cache");
}

#[test]
fn image_kind_detection_ignores_case_and_directories() {
    assert_eq!(detect_image_kind("/photos/2024/IMG_001.JPG"), ImageKind::Jpeg);
    assert_eq!(detect_image_kind("shots/raw.DnG"), ImageKind::Raw);
    assert_eq!(detect_image_kind("archive.tar.jpeg"), ImageKind::Jpeg);
}

#[test]
fn image_kind_without_extension_is_unsupported() {
    assert_eq!(detect_image_kind("README"), ImageKind::Unsupported);
    assert_eq!(detect_image_kind(".jpg"), ImageKind::Unsupported);
    assert_eq!(detect_image_kind("photos.jpg/"), ImageKind::Jpeg);
    assert_eq!(detect_image_kind(""), ImageKind::Unsupported);
}

#[test]
fn image_id_rejects_negative_values() {
    assert!(matches!(
        ImageId::new(-7),
        Err(DomainError::InvalidImageId(-7))
    ));
    assert_eq!(ImageId::new(42).expect("positive").get(), 42);
}

#[test]
fn domain_errors_describe_themselves() {
    assert_eq!(
        DomainError::InvalidImageId(-3).describe(),
        "image id must be positive, got -3"
    );
    assert_eq!(
        DomainError::NonFiniteEditParam("tint").describe(),
        "edit parameter tint must be finite"
    );
}
