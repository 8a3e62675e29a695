use vstd::prelude::*;

use crate::domain::{DecodedImage, ImageId, ImageKind, ImageRecord, ImportReport, PreviewFrame, PreviewMetrics};
use crate::error::ApplicationError;
use crate::text::{decimal, decimal_of, decimal_u64, digits_of, join2};

verus! {

/// A file about to be recorded in the catalog.
#[derive(Debug, Clone)]
pub struct NewImage {
    pub file_path: String,
    pub import_date: String,
    pub capture_date: Option<String>,
    pub camera_model: Option<String>,
    pub iso: Option<i64>,
    pub rating: i64,
    pub flag: i64,
    pub metadata_json: String,
}

/// The catalog's answer to an upsert: the image's id and whether it was new.
#[derive(Debug, Clone, Copy)]
pub struct UpsertImageResult {
    pub image_id: ImageId,
    pub inserted: bool,
}

/// A stored edit: its parameters as JSON and when they were saved.
#[derive(Debug, Clone)]
pub struct StoredEdit {
    pub edit_params_json: String,
    pub updated_at: String,
}

/// A supported file found by a folder scan.
#[derive(Debug, Clone)]
pub struct ScannedFile {
    pub canonical_path: String,
    pub extension: String,
    pub file_size: u64,
    pub image_kind: ImageKind,
}

/// Result of a folder scan: how many files were seen, how many are supported, and those.
#[derive(Debug, Clone, Default)]
pub struct FileScanSummary {
    pub scanned_files: usize,
    pub supported_files: usize,
    pub files: Vec<ScannedFile>,
}

/// A thumbnail written to the cache.
#[derive(Debug, Clone)]
pub struct ThumbnailArtifact {
    pub file_path: String,
    pub width: u32,
    pub height: u32,
}

/// Persistent catalog of images, edits and thumbnails.
pub trait CatalogRepository {
    fn initialize(&self) -> Result<(), ApplicationError>;

    fn upsert_image(&self, image: &NewImage) -> Result<UpsertImageResult, ApplicationError>;

    fn ensure_default_edit(
        &self,
        image_id: ImageId,
        edit_params_json: &str,
        updated_at: &str,
    ) -> Result<(), ApplicationError>;

    fn upsert_edit(&self, image_id: ImageId, edit_params_json: &str, updated_at: &str) -> Result<
        (),
        ApplicationError,
    >;

    fn find_edit(&self, image_id: ImageId) -> Result<Option<StoredEdit>, ApplicationError>;

    fn upsert_thumbnail(
        &self,
        image_id: ImageId,
        file_path: &str,
        width: i64,
        height: i64,
        updated_at: &str,
    ) -> Result<(), ApplicationError>;

    fn list_images(&self) -> Result<Vec<ImageRecord>, ApplicationError>;

    fn find_image_by_id(&self, image_id: ImageId) -> Result<Option<ImageRecord>, ApplicationError>;
}

/// Finds the supported image files below a folder.
pub trait FileScanner {
    fn scan_supported(&self, folder: &str) -> Result<FileScanSummary, ApplicationError>;
}

/// Produces cached thumbnails.
pub trait ThumbnailGenerator {
    fn ensure_thumbnail(&self, source_path: &str, cache_root: &str, image_id: ImageId) -> Result<
        ThumbnailArtifact,
        ApplicationError,
    >;
}

/// Decodes an image far enough to report its size and kind.
pub trait ImageDecoder {
    fn decode_for_preview(&self, path: &str) -> Result<DecodedImage, ApplicationError>;
}

/// Source of timestamps for catalog records.
pub trait Clock {
    fn now_timestamp_string(&self) -> String;
}

/// The receiving side of a background preview pipeline.
pub trait PreviewPipeline {
    fn try_receive_preview(&self) -> Result<Option<PreviewFrame>, ApplicationError>;

    fn metrics(&self) -> Result<PreviewMetrics, ApplicationError>;
}

#[derive(Debug, Clone, Default)]
pub struct BootstrapCatalogCommand;

#[derive(Debug, Clone)]
pub struct ImportFolderCommand {
    pub folder: String,
    pub cache_root: String,
}

#[derive(Debug, Clone, Default)]
pub struct ListImagesCommand;

#[derive(Debug, Clone, Copy)]
pub struct OpenImageCommand {
    pub image_id: ImageId,
}

#[derive(Debug, Clone, Copy)]
pub struct ShowEditCommand {
    pub image_id: ImageId,
}

#[derive(Debug, Clone, Default)]
pub struct PollPreviewCommand;

#[derive(Debug, Clone, Default)]
pub struct PreviewMetricsQuery;

/// Unicode `White_Space`, the set `char::is_whitespace` and `str::trim` use.
pub open spec fn is_white_space(c: char) -> bool {
    let u = c as u32;
    (9 <= u <= 13) || u == 32 || u == 0x85 || u == 0xA0 || u == 0x1680 || (0x2000 <= u <= 0x200A)
        || u == 0x2028 || u == 0x2029 || u == 0x202F || u == 0x205F || u == 0x3000
}

/// The text is empty once surrounding white space is trimmed.
pub open spec fn is_blank_text(s: Seq<char>) -> bool {
    forall|i: int| 0 <= i < s.len() ==> is_white_space(#[trigger] s[i])
}

/// Whether `s` holds nothing but white space.
pub fn is_blank(s: &str) -> (r: bool)
    ensures
        r == is_blank_text(s@),
{
    let n = s.unicode_len();
    let mut i: usize = 0;
    while i < n
        invariant
            n == s@.len(),
            i <= n,
            forall|j: int| 0 <= j < i ==> is_white_space(#[trigger] s@[j]),
        decreases n - i,
    {
        let u = s.get_char(i) as u32;
        let white = (9 <= u && u <= 13) || u == 32 || u == 0x85 || u == 0xA0 || u == 0x1680 || (
        0x2000 <= u && u <= 0x200A) || u == 0x2028 || u == 0x2029 || u == 0x202F || u == 0x205F
            || u == 0x3000;
        if !white {
            return false;
        }
        i = i + 1;
    }
    true
}

/// JSON of the neutral edit: all six tone parameters zero.
pub open spec fn default_edit_json_text() -> Seq<char> {
    "{\"exposure\":0,\"contrast\":0,\"temperature\":0,\"tint\":0,\"highlights\":0,\"shadows\":0}"@
}

/// The edit recorded for a newly imported image.
pub fn default_edit_params_json() -> (r: String)
    ensures
        r@ == default_edit_json_text(),
{
    String::from_str(
        "{\"exposure\":0,\"contrast\":0,\"temperature\":0,\"tint\":0,\"highlights\":0,\"shadows\":0}",
    )
}

/// JSON string literal of a text, quotes and escapes included.
pub uninterp spec fn json_quoted_of(text: Seq<char>) -> Seq<char>;

/// Relies on `serde_json::to_string` for a `str`: the text as a JSON string literal.
#[verifier::external_body]
fn json_quoted(text: &str) -> (r: Option<String>)
    ensures
        r matches Some(q) ==> q@ == json_quoted_of(text@),
{
    serde_json::to_string(text).ok()
}

/// JSON metadata recorded with an imported file: its extension and size, keys in order.
pub open spec fn metadata_json_text(file_size: u64, extension: Seq<char>) -> Seq<char> {
    "{\"extension\":"@ + json_quoted_of(extension) + ",\"file_size\":"@ + digits_of(file_size as nat)
        + "}"@
}

/// Metadata JSON for a scanned file; `None` only if the extension cannot be written as JSON.
pub fn file_metadata_json(file_size: u64, extension: &str) -> (r: Option<String>)
    ensures
        r matches Some(t) ==> t@ == metadata_json_text(file_size, extension@),
{
    let quoted = match json_quoted(extension) {
        Some(q) => q,
        None => {
            return None;
        },
    };
    let mut r = String::from_str("{\"extension\":");
    r.append(quoted.as_str());
    r.append(",\"file_size\":");
    r.append(decimal_u64(file_size).as_str());
    r.append("}");
    Some(r)
}

/// The error reported when no image has the id: `not found` with `image not found for id=<id>`.
pub open spec fn image_not_found_message(image_id: ImageId) -> Seq<char> {
    "image not found for id="@ + decimal_of(image_id.value() as int)
}

/// Turns a catalog lookup into the record to open: a failed lookup passes its error on, a
/// missing record becomes a not-found error.
pub fn resolve_found_image(image_id: ImageId, found: Result<Option<ImageRecord>, ApplicationError>) -> (r: Result<ImageRecord, ApplicationError>)
    ensures
        found is Err ==> r == Err::<ImageRecord, ApplicationError>(found->Err_0),
        found == Ok::<Option<ImageRecord>, ApplicationError>(None) ==> r is Err && r->Err_0 is NotFound
            && r->Err_0->NotFound_0@ == image_not_found_message(image_id),
        found matches Ok(Some(record)) ==> r == Ok::<ImageRecord, ApplicationError>(record),
{
    match found {
        Err(e) => Err(e),
        Ok(None) => {
            let id = decimal(image_id.get());
            Err(ApplicationError::NotFound(join2("image not found for id=", id.as_str())))
        },
        Ok(Some(record)) => Ok(record),
    }
}

/// Use cases of the editor, over the collaborators it is built with.
pub struct ApplicationService<C, S, T, D, K, P> {
    catalog: C,
    scanner: S,
    thumbnails: T,
    decoder: D,
    clock: K,
    preview: P,
}

impl<
    C: CatalogRepository,
    S: FileScanner,
    T: ThumbnailGenerator,
    D: ImageDecoder,
    K: Clock,
    P: PreviewPipeline,
> ApplicationService<C, S, T, D, K, P> {
    pub fn new(catalog: C, scanner: S, thumbnails: T, decoder: D, clock: K, preview: P) -> (r: Self)
        ensures
            r.held_catalog() == catalog,
            r.held_preview() == preview,
    {
        ApplicationService { catalog, scanner, thumbnails, decoder, clock, preview }
    }

    pub closed spec fn held_catalog(&self) -> C {
        self.catalog
    }

    pub closed spec fn held_preview(&self) -> P {
        self.preview
    }

    /// The catalog the service records into.
    pub fn catalog(&self) -> (r: &C)
        ensures
            *r == self.held_catalog(),
    {
        &self.catalog
    }

    /// The clock that stamps catalog records.
    pub fn clock(&self) -> &K {
        &self.clock
    }

    /// The preview pipeline the service polls.
    pub fn preview(&self) -> (r: &P)
        ensures
            *r == self.held_preview(),
    {
        &self.preview
    }

    /// Prepares the catalog for use.
    pub fn bootstrap_catalog(&self, command: BootstrapCatalogCommand) -> Result<(), ApplicationError> {
        self.catalog.initialize()
    }

    /// Imports every supported file below a folder: each is upserted into the catalog, given
    /// the neutral edit if it has none, and a cached thumbnail. Blank folder or cache-root
    /// text is rejected before anything is scanned.
    pub fn import_folder(&self, command: ImportFolderCommand) -> (r: Result<ImportReport, ApplicationError>)
        ensures
            is_blank_text(command.folder@) ==> r is Err && r->Err_0 is InvalidInput,
            !is_blank_text(command.folder@) && is_blank_text(command.cache_root@) ==> r is Err
                && r->Err_0 is InvalidInput,
    {
        if is_blank(command.folder.as_str()) {
            return Err(ApplicationError::InvalidInput(String::from_str("folder path must not be empty")));
        }
        if is_blank(command.cache_root.as_str()) {
            return Err(ApplicationError::InvalidInput(String::from_str("cache root must not be empty")));
        }
        let scan = match self.scanner.scan_supported(command.folder.as_str()) {
            Ok(scan) => scan,
            Err(e) => {
                return Err(e);
            },
        };
        let now = self.clock.now_timestamp_string();
        self.import_scanned(scan, now.as_str(), command.cache_root.as_str())
    }

    /// Records the files of a scan. On success the report copies the scan's counts, and
    /// counts as newly imported only files the catalog had not seen, so at most one per file.
    pub fn import_scanned(&self, scan: FileScanSummary, now: &str, cache_root: &str) -> (r: Result<
        ImportReport,
        ApplicationError,
    >)
        ensures
            r matches Ok(report) ==> report.scanned_files == scan.scanned_files
                && report.supported_files == scan.supported_files && report.newly_imported
                <= scan.files@.len(),
    {
        let default_edit_json = default_edit_params_json();
        let mut report = ImportReport {
            scanned_files: scan.scanned_files,
            supported_files: scan.supported_files,
            newly_imported: 0,
        };
        let files = &scan.files;
        let mut i: usize = 0;
        while i < files.len()
            invariant
                i <= files@.len(),
                report.newly_imported <= i,
                report.scanned_files == scan.scanned_files,
                report.supported_files == scan.supported_files,
                files@ == scan.files@,
            decreases files@.len() - i,
        {
            let file = &files[i];
            let metadata_json = match file_metadata_json(file.file_size, file.extension.as_str()) {
                Some(text) => text,
                None => {
                    return Err(
                        ApplicationError::Persistence(
                            String::from_str("file metadata cannot be written as JSON"),
                        ),
                    );
                },
            };
            let image = NewImage {
                file_path: file.canonical_path.clone(),
                import_date: String::from_str(now),
                capture_date: None,
                camera_model: None,
                iso: None,
                rating: 0,
                flag: 0,
                metadata_json,
            };
            let upsert = match self.catalog.upsert_image(&image) {
                Ok(u) => u,
                Err(e) => {
                    return Err(e);
                },
            };
            if upsert.inserted {
                report.newly_imported = report.newly_imported + 1;
            }
            match self.catalog.ensure_default_edit(upsert.image_id, default_edit_json.as_str(), now) {
                Ok(()) => {},
                Err(e) => {
                    return Err(e);
                },
            }
            let thumb = match self.thumbnails.ensure_thumbnail(
                file.canonical_path.as_str(),
                cache_root,
                upsert.image_id,
            ) {
                Ok(t) => t,
                Err(e) => {
                    return Err(e);
                },
            };
            match self.catalog.upsert_thumbnail(
                upsert.image_id,
                thumb.file_path.as_str(),
                thumb.width as i64,
                thumb.height as i64,
                now,
            ) {
                Ok(()) => {},
                Err(e) => {
                    return Err(e);
                },
            }
            i = i + 1;
        }
        Ok(report)
    }

    /// Every catalogued image, as the catalog lists them.
    pub fn list_images(&self, command: ListImagesCommand) -> Result<Vec<ImageRecord>, ApplicationError> {
        self.catalog.list_images()
    }

    /// Looks an image up and decodes it for display; an unknown id is a not-found error.
    pub fn open_image(&self, command: OpenImageCommand) -> Result<DecodedImage, ApplicationError> {
        let found = self.catalog.find_image_by_id(command.image_id);
        match resolve_found_image(command.image_id, found) {
            Ok(image) => self.decoder.decode_for_preview(image.file_path.as_str()),
            Err(e) => Err(e),
        }
    }

    /// The newest finished preview frame, if any.
    pub fn poll_preview(&self, command: PollPreviewCommand) -> Result<Option<PreviewFrame>, ApplicationError> {
        self.preview.try_receive_preview()
    }

    /// The preview pipeline's counters and latencies.
    pub fn preview_metrics(&self, query: PreviewMetricsQuery) -> Result<PreviewMetrics, ApplicationError> {
        self.preview.metrics()
    }
}

} // verus!
