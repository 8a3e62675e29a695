use vstd::prelude::*;

use crate::domain::{
    PreviewMetrics, detect_image_kind, kind_of_extension, path_extension_of, DecodedImage, ImageKind, ImageRecord,
};
use crate::text::{decimal, decimal_of, decimal_u64, digits_of, join2};

verus! {

/// Catalog listing label of an image kind.
pub open spec fn kind_label(kind: ImageKind) -> Seq<char> {
    match kind {
        ImageKind::Jpeg => "JPEG"@,
        ImageKind::Raw => "RAW"@,
        ImageKind::Unsupported => "UNKNOWN"@,
    }
}

/// Label of the kind a path's extension names: `JPEG`, `RAW` or `UNKNOWN`.
pub fn image_kind_from_path(path: &str) -> (r: &'static str)
    ensures
        r@ == kind_label(kind_of_extension(path_extension_of(path@))),
{
    match detect_image_kind(path) {
        ImageKind::Jpeg => "JPEG",
        ImageKind::Raw => "RAW",
        ImageKind::Unsupported => "UNKNOWN",
    }
}

/// One tab-separated listing row: id, kind label, import date, path.
pub fn present_image_row(image: &ImageRecord) -> (r: String)
    ensures
        r@ == decimal_of(image.id.value() as int) + "\t"@ + kind_label(
            kind_of_extension(path_extension_of(image.file_path@)),
        ) + "\t"@ + image.import_date@ + "\t"@ + image.file_path@,
{
    let id = decimal(image.id.get());
    let mut r = join2(id.as_str(), "\t");
    r.append(image_kind_from_path(image.file_path.as_str()));
    r.append("\t");
    r.append(image.import_date.as_str());
    r.append("\t");
    r.append(image.file_path.as_str());
    r
}

/// Summary of an opened image: `opened image <id> (kind=<Kind>, <w>x<h>)`.
pub fn present_decoded(image_id: i64, decoded: &DecodedImage) -> (r: String)
    ensures
        r@ == "opened image "@ + decimal_of(image_id as int) + " (kind="@ + decoded.kind.name_spec()
            + ", "@ + decimal_of(decoded.width as int) + "x"@ + decimal_of(decoded.height as int)
            + ")"@,
{
    let id = decimal(image_id);
    let mut r = join2("opened image ", id.as_str());
    r.append(" (kind=");
    r.append(decoded.kind.name());
    r.append(", ");
    let w = decimal(decoded.width as i64);
    r.append(w.as_str());
    r.append("x");
    let h = decimal(decoded.height as i64);
    r.append(h.as_str());
    r.append(")");
    r
}

/// Decimal text of an optional latency, `-` when absent.
pub open spec fn optional_ms_text(value: Option<u64>) -> Seq<char> {
    match value {
        Some(v) => digits_of(v as nat),
        None => "-"@,
    }
}

fn optional_ms(value: Option<u64>) -> (r: String)
    ensures
        r@ == optional_ms_text(value),
{
    match value {
        Some(v) => decimal_u64(v),
        None => String::from_str("-"),
    }
}

/// Pipeline telemetry for the window title:
/// `jobs s/c/x/d=<submitted>/<completed>/<canceled>/<dropped> last=<ms>ms p95=<ms>ms`.
pub fn present_preview_metrics(metrics: &PreviewMetrics) -> (r: String)
    ensures
        r@ == "jobs s/c/x/d="@ + digits_of(metrics.submitted_jobs as nat) + "/"@ + digits_of(
            metrics.completed_jobs as nat,
        ) + "/"@ + digits_of(metrics.canceled_jobs as nat) + "/"@ + digits_of(
            metrics.dropped_frames as nat,
        ) + " last="@ + optional_ms_text(metrics.last_render_time_ms) + "ms p95="@
            + optional_ms_text(metrics.p95_render_time_ms) + "ms"@,
{
    let mut r = String::from_str("jobs s/c/x/d=");
    r.append(decimal_u64(metrics.submitted_jobs).as_str());
    r.append("/");
    r.append(decimal_u64(metrics.completed_jobs).as_str());
    r.append("/");
    r.append(decimal_u64(metrics.canceled_jobs).as_str());
    r.append("/");
    r.append(decimal_u64(metrics.dropped_frames).as_str());
    r.append(" last=");
    r.append(optional_ms(metrics.last_render_time_ms).as_str());
    r.append("ms p95=");
    r.append(optional_ms(metrics.p95_render_time_ms).as_str());
    r.append("ms");
    r
}

} // verus!
