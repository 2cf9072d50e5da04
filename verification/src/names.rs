//! File names of attachments: base name, extension and image kind.
//!
//! An attachment is classified by its extension alone, the part of the
//! file name behind its final `.`, compared without regard to ASCII case.

use vstd::prelude::*;
use vstd::string::*;
use vstd::utf8::*;

verus! {

/// The position of the final `.` in `name`, or -1 where it has none.
pub open spec fn last_dot(name: Seq<char>) -> int
    decreases name.len(),
{
    if name.len() == 0 {
        -1
    } else if name.last() == '.' {
        name.len() - 1
    } else {
        last_dot(name.drop_last())
    }
}

/// Whether `name` has a `.` and so can be split into base name and extension.
pub open spec fn has_extension(name: Seq<char>) -> bool {
    last_dot(name) >= 0
}

/// What stands before the final `.` of `name`.
pub open spec fn base_name(name: Seq<char>) -> Seq<char> {
    name.subrange(0, last_dot(name))
}

/// What stands behind the final `.` of `name`.
pub open spec fn extension(name: Seq<char>) -> Seq<char> {
    name.subrange(last_dot(name) + 1, name.len() as int)
}

/// `last_dot` finds a `.` exactly where there is one, and then the last one.
pub proof fn lemma_last_dot(name: Seq<char>)
    ensures
        -1 <= last_dot(name) < name.len(),
        last_dot(name) >= 0 ==> name[last_dot(name)] == '.',
        forall|j: int| last_dot(name) < j < name.len() ==> name[j] != '.',
        last_dot(name) >= 0 <==> name.contains('.'),
    decreases name.len(),
{
    if name.len() > 0 && name.last() != '.' {
        let shorter = name.drop_last();
        lemma_last_dot(shorter);
        assert forall|j: int| last_dot(name) < j < name.len() implies name[j] != '.' by {
            if j < shorter.len() {
                assert(shorter[j] == name[j]);
            }
        }
        if last_dot(name) >= 0 {
            assert(shorter[last_dot(name)] == name[last_dot(name)]);
        }
    }
    if last_dot(name) < 0 && name.contains('.') {
        let j = choose|j: int| 0 <= j < name.len() && name[j] == '.';
        assert(name[j] != '.');
    }
}

/// A name is put together again from its base name, a `.` and its extension,
/// and the extension holds no `.`.
pub proof fn lemma_split_joins(name: Seq<char>)
    requires
        has_extension(name),
    ensures
        name == base_name(name) + seq!['.'] + extension(name),
        !extension(name).contains('.'),
{
    lemma_last_dot(name);
    assert(name =~= base_name(name) + seq!['.'] + extension(name));
    if extension(name).contains('.') {
        let j = choose|j: int| 0 <= j < extension(name).len() && extension(name)[j] == '.';
        assert(name[last_dot(name) + 1 + j] == '.');
    }
}

/// The only way to cut a name at a `.` so that no `.` follows is the cut at
/// its final `.`.
pub proof fn lemma_split_unique(name: Seq<char>, base: Seq<char>, ext: Seq<char>)
    requires
        name == base + seq!['.'] + ext,
        !ext.contains('.'),
    ensures
        has_extension(name),
        base_name(name) == base,
        extension(name) == ext,
{
    lemma_last_dot(name);
    let i = base.len() as int;
    assert(name[i] == '.');
    assert(name.contains('.'));
    if last_dot(name) > i {
        let k = last_dot(name) - i - 1;
        assert(ext[k] == name[last_dot(name)]);
        assert(ext.contains('.'));
    }
    assert(last_dot(name) == i);
    assert(base_name(name) =~= base);
    assert(extension(name) =~= ext);
}

/// Splits a file name at its final `.` into base name and extension, or
/// returns `None` for a name without a `.`.
pub fn split_file_name(name: &str) -> (parts: Option<(&str, &str)>)
    ensures
        parts is Some <==> has_extension(name@),
        parts matches Some((base, ext)) ==> base@ == base_name(name@) && ext@ == extension(name@),
{
    let len = name.unicode_len();
    let mut i = len;
    proof {
        lemma_last_dot(name@);
    }
    while i > 0
        invariant
            i <= len == name@.len(),
            forall|j: int| i <= j < len ==> name@[j] != '.',
        decreases i,
    {
        i = i - 1;
        if name.get_char(i) == '.' {
            proof {
                lemma_last_dot(name@);
                assert(name@.contains('.'));
                if last_dot(name@) < i {
                    lemma_split_unique(
                        name@,
                        name@.subrange(0, i as int),
                        name@.subrange(i + 1, len as int),
                    );
                }
            }
            let base = name.substring_char(0, i);
            let ext = name.substring_char(i + 1, len);
            return Some((base, ext));
        }
    }
    proof {
        lemma_last_dot(name@);
        if last_dot(name@) >= 0 {
            assert(name@[last_dot(name@)] == '.');
        }
    }
    None
}

/// The upper-case form of an ASCII letter; any other character unchanged.
pub open spec fn ascii_upper(c: char) -> char {
    if 'a' <= c && c <= 'z' {
        ((c as u32) - 32) as char
    } else {
        c
    }
}

/// `text` with each ASCII letter in upper case.
pub open spec fn ascii_uppercase(text: Seq<char>) -> Seq<char> {
    text.map_values(|c: char| ascii_upper(c))
}

/// `str::to_ascii_uppercase` of the standard library: the result is the
/// argument with each of the letters `a` to `z` replaced by its upper-case
/// form and every other character, ASCII or not, left as it is.
#[verifier::external_body]
pub(crate) fn to_ascii_uppercase(text: &str) -> (upper: String)
    ensures
        upper@ == ascii_uppercase(text@),
{
    text.to_ascii_uppercase()
}

/// Whether an upper-case extension names a raster image that is worth
/// converting: `JPG`, `JPEG` or `PNG`.
pub open spec fn unoptimized_image_type(file_type: Seq<char>) -> bool {
    file_type == "JPG"@ || file_type == "JPEG"@ || file_type == "PNG"@
}

/// Whether an upper-case extension names the optimized encoding, `WEBP`.
pub open spec fn optimized_image_type(file_type: Seq<char>) -> bool {
    file_type == "WEBP"@
}

/// Compares two strings character by character.
pub fn str_eq(a: &str, b: &str) -> (same: bool)
    ensures
        same == (a@ == b@),
{
    let x = a.as_bytes();
    let y = b.as_bytes();
    proof {
        encode_utf8_decode_utf8(a@);
        encode_utf8_decode_utf8(b@);
    }
    if x.len() != y.len() {
        return false;
    }
    let mut i: usize = 0;
    while i < x.len()
        invariant
            i <= x.len() == y.len(),
            forall|j: int| 0 <= j < i ==> x@[j] == y@[j],
            a@ == b@ ==> x@ == y@,
        decreases x.len() - i,
    {
        if x[i] != y[i] {
            return false;
        }
        i = i + 1;
    }
    assert(x@ =~= y@);
    true
}

/// Whether one of `names` is `name`.
pub open spec fn holds_name(names: Seq<String>, name: Seq<char>) -> bool {
    exists|k: int| 0 <= k < names.len() && (#[trigger] names[k])@ == name
}

/// Tells whether one of `names` is `name`.
pub fn contains_name(names: &Vec<String>, name: &str) -> (found: bool)
    ensures
        found == holds_name(names@, name@),
{
    let mut k: usize = 0;
    while k < names.len()
        invariant
            k <= names.len(),
            forall|j: int| 0 <= j < k ==> (#[trigger] names@[j])@ != name@,
        decreases names.len() - k,
    {
        if str_eq(names[k].as_str(), name) {
            return true;
        }
        k = k + 1;
    }
    false
}

/// Tells whether `file_type`, which must be in upper case to be recognised,
/// is one of the raster image types that are worth converting.
pub fn is_unoptimized_image_type(file_type: &str) -> (unoptimized: bool)
    ensures
        unoptimized == unoptimized_image_type(file_type@),
{
    str_eq(file_type, "JPG") || str_eq(file_type, "JPEG") || str_eq(file_type, "PNG")
}

/// Tells whether `file_type`, which must be in upper case to be recognised,
/// is the optimized encoding.
pub fn is_optimized_image_type(file_type: &str) -> (optimized: bool)
    ensures
        optimized == optimized_image_type(file_type@),
{
    str_eq(file_type, "WEBP")
}

} // verus!
