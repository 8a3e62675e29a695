use vstd::prelude::*;

use crate::text::{eq_lowercased, equals_lowercased, join2};

verus! {

/// Errors raised by domain value constructors.
#[derive(Debug, Clone, PartialEq, Eq)]
pub enum DomainError {
    InvalidImageId(i64),
    NonFiniteEditParam(&'static str),
}

/// Identity of a catalogued image: always strictly positive.
#[derive(Debug, Clone, Copy, PartialEq, Eq, Hash, Structural)]
pub struct ImageId(i64);

impl ImageId {
    #[verifier::type_invariant]
    spec fn positive(self) -> bool {
        self.0 > 0
    }

    /// The numeric value of the identity.
    pub closed spec fn value(self) -> i64 {
        self.0
    }

    pub fn new(value: i64) -> (r: Result<ImageId, DomainError>)
        ensures
            value <= 0 ==> r == Err::<ImageId, DomainError>(DomainError::InvalidImageId(value)),
            value > 0 ==> r is Ok && r->Ok_0.value() == value,
    {
        if value <= 0 {
            return Err(DomainError::InvalidImageId(value));
        }
        Ok(ImageId(value))
    }

    pub fn get(self) -> (r: i64)
        ensures
            r == self.value(),
            r > 0,
    {
        proof {
            use_type_invariant(&self);
        }
        self.0
    }
}

/// The kinds of source file the catalog distinguishes.
#[derive(Debug, Clone, Copy, PartialEq, Eq, Structural)]
pub enum ImageKind {
    Jpeg,
    Raw,
    Unsupported,
}

/// One catalogued image as stored by the catalog.
#[derive(Debug, Clone, PartialEq, Eq)]
pub struct ImageRecord {
    pub id: ImageId,
    pub file_path: String,
    pub import_date: String,
    pub capture_date: Option<String>,
    pub rating: i64,
    pub flag: i64,
    pub metadata_json: String,
}

/// Counts reported by a folder import.
#[derive(Debug, Clone, Default, PartialEq, Eq, Structural)]
pub struct ImportReport {
    pub scanned_files: usize,
    pub supported_files: usize,
    pub newly_imported: usize,
}

/// Dimensions and kind of an image decoded for display.
#[derive(Debug, Clone, PartialEq, Eq, Structural)]
pub struct DecodedImage {
    pub width: u32,
    pub height: u32,
    pub kind: ImageKind,
}

/// A rendered preview handed to the poller: pixels packed as 0x00RRGGBB, row-major.
#[derive(Debug, Clone, PartialEq, Eq)]
pub struct PreviewFrame {
    pub image_id: ImageId,
    pub sequence: u64,
    pub width: u32,
    pub height: u32,
    pub render_time_ms: u64,
    pub pixels: Vec<u32>,
}

/// Immutable snapshot of the preview pipeline's counters and latencies.
#[derive(Debug, Clone, Default, PartialEq, Eq, Structural)]
pub struct PreviewMetrics {
    pub submitted_jobs: u64,
    pub completed_jobs: u64,
    pub canceled_jobs: u64,
    pub dropped_frames: u64,
    pub last_render_time_ms: Option<u64>,
    pub p95_render_time_ms: Option<u64>,
}

/// Extension of a path as `std::path::Path` reads it, if any.
pub uninterp spec fn path_extension_of(path: Seq<char>) -> Option<Seq<char>>;

/// Relies on `Path::extension` with `OsStr::to_str`: the text after the last dot of the
/// final path component, if there is one. A path built from a `str` always converts back.
#[verifier::external_body]
fn path_extension(path: &str) -> (r: Option<String>)
    ensures
        r is None <==> path_extension_of(path@) is None,
        r is Some ==> path_extension_of(path@) == Some(r->Some_0@),
{
    let extension = std::path::Path::new(path).extension()?;
    Some(extension.to_str()?.to_string())
}

/// The kind of image an extension names, ignoring ASCII case.
pub open spec fn kind_of_extension(ext: Option<Seq<char>>) -> ImageKind {
    match ext {
        None => ImageKind::Unsupported,
        Some(e) => if equals_lowercased(e, "jpg"@) || equals_lowercased(e, "jpeg"@) {
            ImageKind::Jpeg
        } else if equals_lowercased(e, "cr2"@) || equals_lowercased(e, "nef"@) || equals_lowercased(
            e,
            "arw"@,
        ) || equals_lowercased(e, "dng"@) {
            ImageKind::Raw
        } else {
            ImageKind::Unsupported
        },
    }
}

/// Classifies a path by its extension: jpg/jpeg are JPEG, cr2/nef/arw/dng are RAW, in any
/// ASCII case; anything else, or no extension, is unsupported.
pub fn detect_image_kind(path: &str) -> (r: ImageKind)
    ensures
        r == kind_of_extension(path_extension_of(path@)),
{
    match path_extension(path) {
        None => ImageKind::Unsupported,
        Some(ext) => {
            let e = ext.as_str();
            if eq_lowercased(e, "jpg") || eq_lowercased(e, "jpeg") {
                ImageKind::Jpeg
            } else if eq_lowercased(e, "cr2") || eq_lowercased(e, "nef") || eq_lowercased(e, "arw")
                || eq_lowercased(e, "dng") {
                ImageKind::Raw
            } else {
                ImageKind::Unsupported
            }
        },
    }
}

/// Whether a path names a JPEG file (jpg or jpeg, in any ASCII case).
pub fn is_supported_jpeg(path: &str) -> (r: bool)
    ensures
        r == (kind_of_extension(path_extension_of(path@)) == ImageKind::Jpeg),
{
    match detect_image_kind(path) {
        ImageKind::Jpeg => true,
        _ => false,
    }
}

impl ImageKind {
    /// The variant's name as written in the source (`Jpeg`, `Raw`, `Unsupported`).
    pub open spec fn name_spec(self) -> Seq<char> {
        match self {
            ImageKind::Jpeg => "Jpeg"@,
            ImageKind::Raw => "Raw"@,
            ImageKind::Unsupported => "Unsupported"@,
        }
    }

    pub fn name(self) -> (r: &'static str)
        ensures
            r@ == self.name_spec(),
    {
        match self {
            ImageKind::Jpeg => "Jpeg",
            ImageKind::Raw => "Raw",
            ImageKind::Unsupported => "Unsupported",
        }
    }
}

impl DomainError {
    /// Human-readable description of the error.
    pub open spec fn description(&self) -> Seq<char> {
        match self {
            DomainError::InvalidImageId(value) => "image id must be positive, got "@
                + crate::text::decimal_of(*value as int),
            DomainError::NonFiniteEditParam(name) => "edit parameter "@ + name@ + " must be finite"@,
        }
    }

    pub fn describe(&self) -> (r: String)
        ensures
            r@ == self.description(),
    {
        match self {
            DomainError::InvalidImageId(value) => {
                let v = crate::text::decimal(*value);
                join2("image id must be positive, got ", v.as_str())
            },
            DomainError::NonFiniteEditParam(name) => {
                let mut r = join2("edit parameter ", name);
                r.append(" must be finite");
                r
            },
        }
    }
}

/// Where the catalog database and the cache directory live.
#[derive(Debug, Clone)]
pub struct AppConfig {
    pub catalog_path: String,
    pub cache_dir: String,
}

impl Default for AppConfig {
    fn default() -> (r: AppConfig)
        ensures
            r.catalog_path@ == "catalog.sqlite3"@,
            r.cache_dir@ == "cache"@,
    {
        AppConfig {
            catalog_path: String::from_str("catalog.sqlite3"),
            cache_dir: String::from_str("cache"),
        }
    }
}

/// Session state of the legacy controller.
#[derive(Debug, Clone, Default)]
pub struct AppState {
    pub catalog_loaded: bool,
    pub selected_image_id: Option<i64>,
    pub last_imported: usize,
}

} // verus!
