//! The settings of a run.

use vstd::prelude::*;
use crate::method::ConversionMethod;
use crate::names::str_eq;

verus! {

/// How many attachments are downloaded at a time, where nothing else is
/// asked for.
pub const DEFAULT_CONCURRENT_DOWNLOADS: usize = 5;

/// The settings of a run.
#[derive(Debug, PartialEq, Eq)]
pub struct Args {
    /// The address of the document service.
    pub base_url: String,
    /// The directory for the working files.
    pub dir: String,
    /// The token that the document service asks for.
    pub token: String,
    /// The effort level of the encoder.
    pub conversion_method: ConversionMethod,
    /// The one document to work on, or nothing to work on all documents.
    pub specific_document: Option<String>,
    /// How many attachments are downloaded at a time.
    pub concurrent_downloads: usize,
}

/// Whether a run that is limited to `specific_document`, or not limited,
/// works on the document called `name`.
pub open spec fn selects_document(specific_document: Option<String>, name: Seq<char>) -> bool {
    match specific_document {
        Some(only) => only@ == name,
        None => true,
    }
}

impl Args {
    /// The settings for the service at `base_url`, with the working files
    /// in `dir`: normal effort, every document, five downloads at a time.
    pub fn new(base_url: String, dir: String, token: String) -> (args: Args)
        ensures
            args.base_url == base_url,
            args.dir == dir,
            args.token == token,
            args.conversion_method == ConversionMethod::Normal,
            args.specific_document is None,
            args.concurrent_downloads == DEFAULT_CONCURRENT_DOWNLOADS,
    {
        Args {
            base_url,
            dir,
            token,
            conversion_method: ConversionMethod::Normal,
            specific_document: None,
            concurrent_downloads: DEFAULT_CONCURRENT_DOWNLOADS,
        }
    }

    /// Tells whether the run works on the document called `name`: it works
    /// on every document unless it is limited to one, and then on the
    /// documents of that name alone.
    pub fn selects(&self, name: &str) -> (selected: bool)
        ensures
            selected == selects_document(self.specific_document, name@),
    {
        match &self.specific_document {
            Some(only) => str_eq(only.as_str(), name),
            None => true,
        }
    }
}

} // verus!
