//! The error taxonomy of the conversion pipeline. Thumbnail and index-refresh
//! failures are reported where they arise and never surface here.
use vstd::prelude::*;

verus! {

/// Why a media reference could not be resolved to a public artifact URL.
#[derive(Debug)]
pub enum ConversionError {
    /// No identifier could be derived from the reference.
    MalformedReference,
    /// The reference could not be fetched; carries the HTTP status text.
    DownloadFailed(String),
    /// The transcoder exited with a non-zero status; carries its captured
    /// standard error.
    ConversionFailed(String),
}

impl ConversionError {
    /// A diagnostic line for this error.
    pub fn message(&self) -> (r: String)
        ensures
            self is MalformedReference ==> r@ == "Failed to extract ID from URL"@,
            self matches ConversionError::DownloadFailed(s) ==> r@ == "Download failed with status: "@
                + s@,
            self matches ConversionError::ConversionFailed(s) ==> r@
                == "Failed to convert video: "@ + s@,
    {
        match self {
            ConversionError::MalformedReference => String::from_str(
                "Failed to extract ID from URL",
            ),
            ConversionError::DownloadFailed(s) => {
                let mut m = String::from_str("Download failed with status: ");
                m.append(s.as_str());
                m
            },
            ConversionError::ConversionFailed(s) => {
                let mut m = String::from_str("Failed to convert video: ");
                m.append(s.as_str());
                m
            },
        }
    }
}

} // verus!
