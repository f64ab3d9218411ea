//! The errors that the library reports.

use vstd::prelude::*;
use crate::text::push_text;
use crate::text::string_of;

verus! {

/// What can go wrong while an archive is loaded, dumped or turned into routes.
#[derive(Debug)]
pub enum HarbingerError {
    /// A file could not be read or written.
    IoError,
    /// The archive declares a format version other than the supported one.
    UnsupportedHarVersion,
    /// The archive is not a well-formed capture.
    HarError,
    /// The directory to dump into is already there.
    DumpPathExists,
    /// The URL of an entry is no URI reference with a host.
    InvalidHarEntryUri { uri: String },
    /// The method of an entry is none of the known verbs.
    InvalidHarEntryMethod { method: String },
}

impl HarbingerError {
    /// The message that describes the error.
    pub open spec fn message(self) -> Seq<char> {
        match self {
            HarbingerError::IoError => "io error"@,
            HarbingerError::UnsupportedHarVersion => "unsupported HAR version"@,
            HarbingerError::HarError => "HAR error"@,
            HarbingerError::DumpPathExists => "dump path exists! cowardly bailing"@,
            HarbingerError::InvalidHarEntryUri { uri } => "Invalid HAR entry: invalid URI "@
                + uri@,
            HarbingerError::InvalidHarEntryMethod { method } =>
                "Invalid HAR entry: invalid method "@ + method@,
        }
    }

    /// The message that describes the error, as a string.
    pub fn to_string(&self) -> (s: String)
        ensures
            s@ == self.message(),
    {
        let mut out: Vec<char> = Vec::new();
        match self {
            HarbingerError::IoError => push_text(&mut out, "io error"),
            HarbingerError::UnsupportedHarVersion => push_text(
                &mut out,
                "unsupported HAR version",
            ),
            HarbingerError::HarError => push_text(&mut out, "HAR error"),
            HarbingerError::DumpPathExists => push_text(
                &mut out,
                "dump path exists! cowardly bailing",
            ),
            HarbingerError::InvalidHarEntryUri { uri } => {
                push_text(&mut out, "Invalid HAR entry: invalid URI ");
                push_text(&mut out, uri.as_str());
            },
            HarbingerError::InvalidHarEntryMethod { method } => {
                push_text(&mut out, "Invalid HAR entry: invalid method ");
                push_text(&mut out, method.as_str());
            },
        }
        string_of(&out)
    }
}

} // verus!
