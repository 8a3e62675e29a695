use std::cell::{Cell, RefCell};
use std::collections::HashMap;

use lite_room::domain::{
    detect_image_kind, is_supported_jpeg, DecodedImage, ImageId, ImageKind, ImageRecord, PreviewFrame, PreviewMetrics,
};
use lite_room::error::ApplicationError;
use lite_room::presenters::{present_decoded, present_image_row, present_preview_metrics};
use lite_room::service::{
    default_edit_params_json, file_metadata_json, resolve_found_image, ApplicationService, BootstrapCatalogCommand,
    CatalogRepository, Clock, FileScanSummary, FileScanner, ImageDecoder, ImportFolderCommand,
    ListImagesCommand, NewImage, OpenImageCommand, PollPreviewCommand, PreviewMetricsQuery,
    PreviewPipeline, ScannedFile, StoredEdit, ThumbnailArtifact, ThumbnailGenerator,
    UpsertImageResult,
};

struct FakeCatalog {
    initialized: Cell<bool>,
    next_id: Cell<i64>,
    images: RefCell<HashMap<i64, ImageRecord>>,
    edits: RefCell<HashMap<i64, StoredEdit>>,
    thumbnails: RefCell<Vec<(i64, String, i64, i64)>>,
}

impl FakeCatalog {
    fn new() -> Self {
        Self {
            initialized: Cell::new(false),
            next_id: Cell::new(1),
            images: RefCell::new(HashMap::new()),
            edits: RefCell::new(HashMap::new()),
            thumbnails: RefCell::new(Vec::new()),
        }
    }
}

impl CatalogRepository for FakeCatalog {
    fn initialize(&self) -> Result<(), ApplicationError> {
        self.initialized.set(true);
        Ok(())
    }

    fn upsert_image(&self, image: &NewImage) -> Result<UpsertImageResult, ApplicationError> {
        let mut images = self.images.borrow_mut();
        if let Some(found) = images.values().find(|entry| entry.file_path == image.file_path) {
            return Ok(UpsertImageResult {
                image_id: found.id,
                inserted: false,
            });
        }
        let id_value = self.next_id.get();
        self.next_id.set(id_value + 1);
        let image_id = ImageId::new(id_value).expect("positive id");
        images.insert(
            id_value,
            ImageRecord {
                id: image_id,
                file_path: image.file_path.clone(),
                import_date: image.import_date.clone(),
                capture_date: image.capture_date.clone(),
                rating: image.rating,
                flag: image.flag,
                metadata_json: image.metadata_json.clone(),
            },
        );
        Ok(UpsertImageResult {
            image_id,
            inserted: true,
        })
    }

    fn ensure_default_edit(
        &self,
        image_id: ImageId,
        edit_params_json: &str,
        updated_at: &str,
    ) -> Result<(), ApplicationError> {
        self.edits
            .borrow_mut()
            .entry(image_id.get())
            .or_insert_with(|| StoredEdit {
                edit_params_json: edit_params_json.to_string(),
                updated_at: updated_at.to_string(),
            });
        Ok(())
    }

    fn upsert_edit(
        &self,
        image_id: ImageId,
        edit_params_json: &str,
        updated_at: &str,
    ) -> Result<(), ApplicationError> {
        self.edits.borrow_mut().insert(
            image_id.get(),
            StoredEdit {
                edit_params_json: edit_params_json.to_string(),
                updated_at: updated_at.to_string(),
            },
        );
        Ok(())
    }

    fn find_edit(&self, image_id: ImageId) -> Result<Option<StoredEdit>, ApplicationError> {
        Ok(self.edits.borrow().get(&image_id.get()).cloned())
    }

    fn upsert_thumbnail(
        &self,
        image_id: ImageId,
        file_path: &str,
        width: i64,
        height: i64,
        _updated_at: &str,
    ) -> Result<(), ApplicationError> {
        self.thumbnails
            .borrow_mut()
            .push((image_id.get(), file_path.to_string(), width, height));
        Ok(())
    }

    fn list_images(&self) -> Result<Vec<ImageRecord>, ApplicationError> {
        Ok(self.images.borrow().values().cloned().collect())
    }

    fn find_image_by_id(&self, image_id: ImageId) -> Result<Option<ImageRecord>, ApplicationError> {
        Ok(self.images.borrow().get(&image_id.get()).cloned())
    }
}

struct FakeScanner {
    files: Vec<String>,
}

impl FileScanner for FakeScanner {
    fn scan_supported(&self, _folder: &str) -> Result<FileScanSummary, ApplicationError> {
        let scanned_files = self.files.len();
        let files: Vec<ScannedFile> = self
            .files
            .iter()
            .map(|path| {
                let ext = path.rsplit('.').next().unwrap_or_default().to_ascii_lowercase();
                ScannedFile {
                    canonical_path: path.clone(),
                    extension: ext,
                    file_size: 100,
                    image_kind: detect_image_kind(path),
                }
            })
            .collect();
        Ok(FileScanSummary {
            scanned_files,
            supported_files: files.len(),
            files,
        })
    }
}

struct FakeThumbs;

impl ThumbnailGenerator for FakeThumbs {
    fn ensure_thumbnail(
        &self,
        _source_path: &str,
        cache_root: &str,
        image_id: ImageId,
    ) -> Result<ThumbnailArtifact, ApplicationError> {
        Ok(ThumbnailArtifact {
            file_path: format!("{cache_root}/thumbs/{}.jpg", image_id.get()),
            width: 256,
            height: 256,
        })
    }
}

struct FakeDecoder;

impl ImageDecoder for FakeDecoder {
    fn decode_for_preview(&self, path: &str) -> Result<DecodedImage, ApplicationError> {
        Ok(DecodedImage {
            width: 64,
            height: 48,
            kind: detect_image_kind(path),
        })
    }
}

struct FakeClock;

impl Clock for FakeClock {
    fn now_timestamp_string(&self) -> String {
        "123".to_string()
    }
}

#[derive(Default)]
struct FakePreviewPipeline {
    responses: RefCell<Vec<PreviewFrame>>,
}

impl PreviewPipeline for FakePreviewPipeline {
    fn try_receive_preview(&self) -> Result<Option<PreviewFrame>, ApplicationError> {
        Ok(self.responses.borrow_mut().pop())
    }

    fn metrics(&self) -> Result<PreviewMetrics, ApplicationError> {
        Ok(PreviewMetrics::default())
    }
}

type FakeService =
    ApplicationService<FakeCatalog, FakeScanner, FakeThumbs, FakeDecoder, FakeClock, FakePreviewPipeline>;

fn service_with(files: Vec<String>) -> FakeService {
    ApplicationService::new(
        FakeCatalog::new(),
        FakeScanner { files },
        FakeThumbs,
        FakeDecoder,
        FakeClock,
        FakePreviewPipeline::default(),
    )
}

#[test]
fn import_and_open_image_workflow() {
    let service = service_with(vec!["/tmp/sample.jpg".to_string()]);

    service
        .bootstrap_catalog(BootstrapCatalogCommand)
        .expect("bootstrap should work");

    let report = service
        .import_folder(ImportFolderCommand {
            folder: "/tmp".to_string(),
            cache_root: "cache".to_string(),
        })
        .expect("import should work");
    assert_eq!(report.scanned_files, 1);
    assert_eq!(report.supported_files, 1);
    assert_eq!(report.newly_imported, 1);

    let images = service
        .list_images(ListImagesCommand)
        .expect("list should work");
    assert_eq!(images.len(), 1);

    let decoded = service
        .open_image(OpenImageCommand {
            image_id: images[0].id,
        })
        .expect("open should work");
    assert_eq!(decoded.width, 64);
    assert_eq!(decoded.kind, ImageKind::Jpeg);
}

#[test]
fn open_missing_image_returns_not_found() {
    let service = service_with(vec![]);

    let result = service.open_image(OpenImageCommand {
        image_id: ImageId::new(99).expect("id"),
    });

    assert!(matches!(result, Err(ApplicationError::NotFound(_))));
}

#[test]
fn import_records_metadata_default_edit_and_thumbnail() {
    let service = service_with(vec!["/tmp/a.jpg".to_string(), "/tmp/b.nef".to_string()]);
    let command = || ImportFolderCommand {
        folder: "/tmp".to_string(),
        cache_root: "cache".to_string(),
    };
    assert_eq!(service.import_folder(command()).expect("import").newly_imported, 2);
    assert_eq!(service.import_folder(command()).expect("again").newly_imported, 0);

    let mut images = service.list_images(ListImagesCommand).expect("list");
    images.sort_by_key(|image| image.id.get());
    assert_eq!(images[0].metadata_json, r#"{"extension":"jpg","file_size":100}"#);
    assert_eq!(images[0].import_date, "123");
    assert_eq!(images[1].metadata_json, r#"{"extension":"nef","file_size":100}"#);
    assert_eq!(
        present_image_row(&images[0]),
        format!("{}\tJPEG\t123\t/tmp/a.jpg", images[0].id.get())
    );
    assert_eq!(
        present_image_row(&images[1]),
        format!("{}\tRAW\t123\t/tmp/b.nef", images[1].id.get())
    );
}

#[test]
fn import_rejects_blank_folder_and_cache_root() {
    let service = service_with(vec![]);
    let blank_folder = service.import_folder(ImportFolderCommand {
        folder: "  \t".to_string(),
        cache_root: "cache".to_string(),
    });
    assert!(matches!(blank_folder, Err(ApplicationError::InvalidInput(_))));
    let blank_cache = service.import_folder(ImportFolderCommand {
        folder: "/tmp".to_string(),
        cache_root: String::new(),
    });
    assert!(matches!(blank_cache, Err(ApplicationError::InvalidInput(_))));
}

#[test]
fn not_found_message_names_the_id() {
    let id = ImageId::new(99).expect("id");
    match resolve_found_image(id, Ok(None)) {
        Err(ApplicationError::NotFound(message)) => {
            assert_eq!(message, "image not found for id=99")
        }
        _ => panic!("expected not found"),
    }
    assert!(matches!(
        resolve_found_image(id, Err(ApplicationError::Io("disk".to_string()))),
        Err(ApplicationError::Io(_))
    ));
}

#[test]
fn presenters_format_rows() {
    let decoded = DecodedImage {
        width: 640,
        height: 480,
        kind: ImageKind::Jpeg,
    };
    assert_eq!(present_decoded(7, &decoded), "opened image 7 (kind=Jpeg, 640x480)");
    assert!(default_edit_params_json().contains("\"shadows\":0"));
}

#[test]
fn poll_and_metrics_pass_through_the_pipeline() {
    let service = service_with(vec![]);
    assert!(service.poll_preview(PollPreviewCommand).expect("poll").is_none());
    assert_eq!(
        service.preview_metrics(PreviewMetricsQuery).expect("metrics"),
        PreviewMetrics::default()
    );
}

#[test]
fn preview_metrics_render_as_telemetry() {
    let mut metrics = PreviewMetrics::default();
    assert_eq!(
        present_preview_metrics(&metrics),
        "jobs s/c/x/d=0/0/0/0 last=-ms p95=-ms"
    );
    metrics.submitted_jobs = 8;
    metrics.completed_jobs = 1;
    metrics.canceled_jobs = 7;
    metrics.last_render_time_ms = Some(42);
    metrics.p95_render_time_ms = Some(u64::MAX);
    assert_eq!(
        present_preview_metrics(&metrics),
        "jobs s/c/x/d=8/1/7/0 last=42ms p95=18446744073709551615ms"
    );
}

#[test]
fn jpeg_support_follows_extension() {
    assert!(is_supported_jpeg("/a/b/c.JPEG"));
    assert!(!is_supported_jpeg("/a/b/c.nef"));
    assert!(!is_supported_jpeg("jpg"));
}

#[test]
fn metadata_json_escapes_the_extension() {
    assert_eq!(
        file_metadata_json(5, "a\"b").expect("json"),
        r#"{"extension":"a\"b","file_size":5}"#
    );
    assert_eq!(
        file_metadata_json(0, "").expect("json"),
        r#"{"extension":"","file_size":0}"#
    );
}
