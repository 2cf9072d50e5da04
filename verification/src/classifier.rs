//! Picks the attachments of a document that are worth converting.

use vstd::prelude::*;
use crate::attachment::AttachmentMetadata;
use crate::names::{
    contains_name, has_extension, holds_name, is_optimized_image_type,
    is_unoptimized_image_type, split_file_name, to_ascii_uppercase,
};

verus! {

/// Why an attachment cannot be classified.
#[derive(Clone, Copy, Debug, PartialEq, Eq, Structural)]
pub enum ClassifyError {
    /// The attachment with this id has no file name.
    MissingFileName { id: u64 },
    /// The file name of the attachment with this id has no extension.
    NoExtension { id: u64 },
}

/// Why `attachment` cannot be classified, if it cannot.
pub open spec fn rejection(attachment: AttachmentMetadata) -> Option<ClassifyError> {
    if attachment.file_name is None {
        Some(ClassifyError::MissingFileName { id: attachment.id })
    } else if !has_extension(attachment.name()) {
        Some(ClassifyError::NoExtension { id: attachment.id })
    } else {
        None
    }
}

/// Whether `all` holds an image in the optimized encoding whose file name
/// without the extension is `base`.
pub open spec fn already_converted(all: Seq<AttachmentMetadata>, base: Seq<char>) -> bool {
    exists|j: int| 0 <= j < all.len() && #[trigger] all[j].is_optimized() && all[j].base() == base
}

/// What the classifier makes of an attachment.
#[derive(Clone, Copy, Debug, PartialEq, Eq, Structural)]
pub enum AttachmentClass {
    /// A raster image worth converting, without an optimized counterpart.
    NeedsConversion,
    /// A raster image worth converting of which an optimized counterpart
    /// is there already: an earlier run dealt with it.
    AlreadyConverted,
    /// An image in the optimized encoding.
    Optimized,
    /// Anything else.
    Other,
}

/// The class of `attachment`, given whether an optimized image of the same
/// base name is there.
pub open spec fn class_given(attachment: AttachmentMetadata, converted: bool) -> AttachmentClass {
    if attachment.is_unoptimized() {
        if converted {
            AttachmentClass::AlreadyConverted
        } else {
            AttachmentClass::NeedsConversion
        }
    } else if attachment.is_optimized() {
        AttachmentClass::Optimized
    } else {
        AttachmentClass::Other
    }
}

/// The class of `attachment` among the attachments `all` of its document.
pub open spec fn class_of(
    all: Seq<AttachmentMetadata>,
    attachment: AttachmentMetadata,
) -> AttachmentClass {
    class_given(attachment, already_converted(all, attachment.base()))
}

/// Whether `attachment` is a raster image worth converting that has no
/// optimized counterpart of the same base name in `all`.
pub open spec fn needs_conversion(
    all: Seq<AttachmentMetadata>,
    attachment: AttachmentMetadata,
) -> bool {
    attachment.is_unoptimized() && !already_converted(all, attachment.base())
}

/// Whether `e` is the error for the first of `all` that cannot be
/// classified.
pub open spec fn first_rejection(all: Seq<AttachmentMetadata>, e: ClassifyError) -> bool {
    exists|i: int|
        {
            &&& 0 <= i < all.len()
            &&& rejection(#[trigger] all[i]) == Some(e)
            &&& forall|j: int| 0 <= j < i ==> rejection(#[trigger] all[j]) is None
        }
}

/// Returns the base names of the images in the optimized encoding among
/// `attachments`. The first attachment without a file name or without an
/// extension makes the whole list fail.
pub fn optimized_base_names(attachments: &Vec<AttachmentMetadata>) -> (result: Result<
    Vec<String>,
    ClassifyError,
>)
    ensures
        match result {
            Ok(optimized) => {
                &&& forall|i: int|
                    0 <= i < attachments.len() ==> rejection(#[trigger] attachments[i]) is None
                &&& forall|b: Seq<char>|
                    holds_name(optimized@, b) <==> already_converted(attachments@, b)
            },
            Err(e) => first_rejection(attachments@, e),
        },
{
    let ghost all = attachments@;
    let mut optimized: Vec<String> = Vec::new();
    let mut i: usize = 0;
    while i < attachments.len()
        invariant
            i <= attachments.len(),
            all == attachments@,
            forall|j: int| 0 <= j < i ==> rejection(#[trigger] all[j]) is None,
            forall|b: Seq<char>|
                holds_name(optimized@, b) <==> already_converted(all.take(i as int), b),
        decreases attachments.len() - i,
    {
        let attachment = &attachments[i];
        let name = match &attachment.file_name {
            Some(name) => name.as_str(),
            None => {
                return Err(ClassifyError::MissingFileName { id: attachment.id });
            },
        };
        let (base, ext) = match split_file_name(name) {
            Some(parts) => parts,
            None => {
                return Err(ClassifyError::NoExtension { id: attachment.id });
            },
        };
        let upper = to_ascii_uppercase(ext);
        let ghost before = optimized@;
        let is_optimized = is_optimized_image_type(upper.as_str());
        if is_optimized {
            optimized.push(base.to_owned());
        }
        proof {
            let shorter = all.take(i as int);
            let longer = all.take(i + 1);
            assert forall|b: Seq<char>|
                holds_name(optimized@, b) <==> already_converted(longer, b) by {
                if holds_name(optimized@, b) {
                    let k = choose|k: int| 0 <= k < optimized@.len() && (#[trigger] optimized@[k])@ == b;
                    if k < before.len() {
                        assert(before[k]@ == b);
                        assert(holds_name(before, b));
                        let j = choose|j: int|
                            0 <= j < shorter.len() && #[trigger] shorter[j].is_optimized()
                                && shorter[j].base() == b;
                        assert(longer[j] == shorter[j]);
                    } else {
                        assert(longer[i as int] == all[i as int]);
                        assert(longer[i as int].is_optimized());
                    }
                }
                if already_converted(longer, b) {
                    let j = choose|j: int|
                        0 <= j < longer.len() && #[trigger] longer[j].is_optimized()
                            && longer[j].base() == b;
                    if j < i {
                        assert(shorter[j] == longer[j]);
                        assert(shorter[j].is_optimized());
                        assert(already_converted(shorter, b));
                        assert(holds_name(before, b));
                        let k = choose|k: int| 0 <= k < before.len() && (#[trigger] before[k])@ == b;
                        assert(optimized@[k] == before[k]);
                    } else {
                        assert(longer[j] == all[i as int]);
                        assert(optimized@[optimized@.len() - 1]@ == b);
                    }
                }
            }
        }
        i = i + 1;
    }
    assert(all.take(i as int) =~= all);
    Ok(optimized)
}

/// Classifies one attachment by the extension of its file name, without
/// regard to case, given the base names of the optimized images of its
/// document. An attachment without a file name or without an extension
/// cannot be classified.
pub fn classify(attachment: &AttachmentMetadata, optimized: &Vec<String>) -> (result: Result<
    AttachmentClass,
    ClassifyError,
>)
    ensures
        match result {
            Ok(class) => {
                &&& rejection(*attachment) is None
                &&& class == class_given(*attachment, holds_name(optimized@, attachment.base()))
            },
            Err(e) => rejection(*attachment) == Some(e),
        },
{
    let name = match &attachment.file_name {
        Some(name) => name.as_str(),
        None => {
            return Err(ClassifyError::MissingFileName { id: attachment.id });
        },
    };
    let (base, ext) = match split_file_name(name) {
        Some(parts) => parts,
        None => {
            return Err(ClassifyError::NoExtension { id: attachment.id });
        },
    };
    let upper = to_ascii_uppercase(ext);
    if is_unoptimized_image_type(upper.as_str()) {
        if contains_name(optimized, base) {
            Ok(AttachmentClass::AlreadyConverted)
        } else {
            Ok(AttachmentClass::NeedsConversion)
        }
    } else if is_optimized_image_type(upper.as_str()) {
        Ok(AttachmentClass::Optimized)
    } else {
        Ok(AttachmentClass::Other)
    }
}

/// Returns the attachments that are raster images worth converting and
/// have no optimized counterpart yet, in the order of the list. An
/// attachment is judged by the extension of its file name alone, without
/// regard to case. The first attachment without a file name or without an
/// extension makes the whole list fail.
pub fn filter_attachments(attachments: Vec<AttachmentMetadata>) -> (result: Result<
    Vec<AttachmentMetadata>,
    ClassifyError,
>)
    ensures
        match result {
            Ok(to_process) => {
                &&& forall|i: int|
                    0 <= i < attachments.len() ==> rejection(#[trigger] attachments[i]) is None
                &&& to_process@ == attachments@.filter(
                    |a: AttachmentMetadata| needs_conversion(attachments@, a),
                )
                &&& forall|k: int|
                    0 <= k < to_process.len() ==> {
                        &&& (#[trigger] to_process[k]).is_unoptimized()
                        &&& !already_converted(attachments@, to_process[k].base())
                        &&& class_of(attachments@, to_process[k]) == AttachmentClass::NeedsConversion
                    }
            },
            Err(e) => first_rejection(attachments@, e),
        },
{
    let ghost all = attachments@;
    // First the optimized images, all of them: a counterpart may stand
    // anywhere in the list.
    let optimized = match optimized_base_names(&attachments) {
        Ok(optimized) => optimized,
        Err(e) => {
            return Err(e);
        },
    };
    // Then the images that are worth converting.
    let ghost wanted = |a: AttachmentMetadata| needs_conversion(all, a);
    let mut to_process: Vec<AttachmentMetadata> = Vec::new();
    proof {
        reveal(Seq::filter);
        assert(all.take(0).filter(wanted) =~= Seq::empty());
    }
    for attachment in it: attachments
        invariant
            it.seq() == all,
            wanted == |a: AttachmentMetadata| needs_conversion(all, a),
            forall|j: int| 0 <= j < all.len() ==> rejection(#[trigger] all[j]) is None,
            forall|b: Seq<char>| holds_name(optimized@, b) <==> already_converted(all, b),
            to_process@ == all.take(it.index() as int).filter(wanted),
    {
        proof {
            assert(rejection(all[it.index() as int]) is None);
            assert(all.take(it.index() + 1).drop_last() =~= all.take(it.index() as int));
            reveal(Seq::filter);
        }
        let keep = match classify(&attachment, &optimized) {
            Ok(AttachmentClass::NeedsConversion) => true,
            _ => false,
        };
        if keep {
            to_process.push(attachment);
        }
    }
    proof {
        assert(all.take(all.len() as int) =~= all);
        assert forall|k: int| 0 <= k < to_process.len() implies {
            &&& (#[trigger] to_process[k]).is_unoptimized()
            &&& !already_converted(all, to_process[k].base())
            &&& class_of(all, to_process[k]) == AttachmentClass::NeedsConversion
        } by {
            all.lemma_filter_pred(wanted, k);
        }
    }
    Ok(to_process)
}

} // verus!
