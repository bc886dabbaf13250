use vstd::prelude::*;
use vstd::string::StringExecFns;

use crate::text::{digits, push_digits};

verus! {

/// Formats a picture of the scene can be exported in.
#[allow(clippy::upper_case_acronyms)]
#[derive(Clone, Copy, Debug, PartialEq, Eq, Structural)]
pub enum ExportFormat {
    PNG,
    SVG,
    GIF,
    MP4,
}

/// A request to export the scene.
#[derive(Debug)]
pub struct ExportRequest {
    pub format: ExportFormat,
    pub filename: String,
    pub resolution: (u32, u32),
}

/// What to do with an export request.
#[derive(Debug)]
pub enum ExportAction {
    /// Capture the primary window into the file at `path`, creating its
    /// directory first.
    SavePng { path: String },
    /// The format is known but cannot be exported yet; the request is dropped.
    Unsupported(ExportFormat),
}

/// Default resolution of an exported picture.
pub const EXPORT_WIDTH: u32 = 1920;

pub const EXPORT_HEIGHT: u32 = 1080;

/// `prefix`, the decimal digits of `n`, then `suffix`.
pub open spec fn stamped(prefix: Seq<char>, n: nat, suffix: Seq<char>) -> Seq<char> {
    prefix + digits(n) + suffix
}

fn stamped_name(prefix: &str, n: u64, suffix: &str) -> (r: String)
    ensures
        r@ == stamped(prefix@, n as nat, suffix@),
{
    let mut s = String::from_str(prefix);
    push_digits(&mut s, n);
    s.append(suffix);
    s
}

/// A request for a PNG screenshot at the default resolution, named
/// `filename`, or `screenshot_<timestamp>.png` when no name is given.
pub fn request_png_screenshot(filename: Option<String>, timestamp: u64) -> (r: ExportRequest)
    ensures
        r.format == ExportFormat::PNG,
        r.resolution == (EXPORT_WIDTH, EXPORT_HEIGHT),
        filename is Some ==> r.filename@ == filename->Some_0@,
        filename is None ==> r.filename@ == stamped("screenshot_"@, timestamp as nat, ".png"@),
{
    let name = match filename {
        Some(f) => f,
        None => stamped_name("screenshot_", timestamp, ".png"),
    };
    ExportRequest { format: ExportFormat::PNG, filename: name, resolution: (EXPORT_WIDTH, EXPORT_HEIGHT) }
}

/// The request that the screenshot key sends: a PNG named
/// `rim_screenshot_<timestamp>.png` at the default resolution.
pub fn screenshot_key_request(timestamp: u64) -> (r: ExportRequest)
    ensures
        r.format == ExportFormat::PNG,
        r.resolution == (EXPORT_WIDTH, EXPORT_HEIGHT),
        r.filename@ == stamped("rim_screenshot_"@, timestamp as nat, ".png"@),
{
    ExportRequest {
        format: ExportFormat::PNG,
        filename: stamped_name("rim_screenshot_", timestamp, ".png"),
        resolution: (EXPORT_WIDTH, EXPORT_HEIGHT),
    }
}

/// How a request is handled: a PNG is saved under `screenshots/`; the
/// other formats are not supported yet.
pub fn plan_export(request: &ExportRequest) -> (r: ExportAction)
    ensures
        request.format == ExportFormat::PNG ==> (r matches ExportAction::SavePng { path }
            && path@ == "screenshots/"@ + request.filename@),
        request.format != ExportFormat::PNG ==> r == ExportAction::Unsupported(request.format),
{
    match request.format {
        ExportFormat::PNG => {
            let path = String::from_str("screenshots/").concat(request.filename.as_str());
            ExportAction::SavePng { path }
        },
        other => ExportAction::Unsupported(other),
    }
}

} // verus!
