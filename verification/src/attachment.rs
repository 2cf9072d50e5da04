//! Attachments as the document service lists them, and what becomes of one.

use vstd::prelude::*;
use crate::names::{
    ascii_uppercase, base_name, extension, has_extension, optimized_image_type,
    unoptimized_image_type,
};

verus! {

/// The metadata of one attachment of a document. The service may leave out
/// the file name or the size.
#[derive(Debug, PartialEq, Eq)]
pub struct AttachmentMetadata {
    pub id: u64,
    pub file_name: Option<String>,
    pub file_size: Option<u64>,
}

impl Clone for AttachmentMetadata {
    fn clone(&self) -> (copy: AttachmentMetadata)
        ensures
            copy.id == self.id,
            copy.file_size == self.file_size,
            copy.file_name is Some <==> self.file_name is Some,
            copy.name() == self.name(),
    {
        let file_name = match &self.file_name {
            Some(name) => Some(name.clone()),
            None => None,
        };
        AttachmentMetadata { id: self.id, file_name, file_size: self.file_size }
    }
}

impl AttachmentMetadata {
    /// The file name, empty where the attachment has none.
    pub open spec fn name(&self) -> Seq<char> {
        match self.file_name {
            Some(name) => name@,
            None => Seq::empty(),
        }
    }

    /// Whether the attachment has a file name with an extension.
    pub open spec fn classifiable(&self) -> bool {
        self.file_name is Some && has_extension(self.name())
    }

    /// The file name without its extension.
    pub open spec fn base(&self) -> Seq<char> {
        base_name(self.name())
    }

    /// The extension of the file name, in upper case.
    pub open spec fn file_type(&self) -> Seq<char> {
        ascii_uppercase(extension(self.name()))
    }

    /// Whether the extension says that this is a raster image worth
    /// converting.
    pub open spec fn is_unoptimized(&self) -> bool {
        self.classifiable() && unoptimized_image_type(self.file_type())
    }

    /// Whether the extension says that this is an image in the optimized
    /// encoding.
    pub open spec fn is_optimized(&self) -> bool {
        self.classifiable() && optimized_image_type(self.file_type())
    }
}

/// What became of one attachment: the id it had and the id that records
/// are to refer to from now on.
#[derive(Clone, Copy, Debug, PartialEq, Eq, Structural)]
pub struct ConversionOutcome {
    pub old_id: u64,
    pub new_id: u64,
}

impl ConversionOutcome {
    /// Whether a new attachment took the place of the old one.
    pub open spec fn superseded(self) -> bool {
        self.old_id != self.new_id
    }

    /// The outcome for an attachment that stays as it is.
    pub fn kept(id: u64) -> (outcome: ConversionOutcome)
        ensures
            outcome == (ConversionOutcome { old_id: id, new_id: id }),
            !outcome.superseded(),
    {
        ConversionOutcome { old_id: id, new_id: id }
    }

    /// Tells whether a new attachment took the place of the old one.
    pub fn is_superseded(&self) -> (superseded: bool)
        ensures
            superseded == self.superseded(),
    {
        self.old_id != self.new_id
    }
}

} // verus!
