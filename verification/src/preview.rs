//! Preview classification and generation.
//!
//! A directory previews as its path; a file previews by its extension:
//! `jpg`, `png` and `gif` files carry their content base64-encoded, anything
//! else carries a fixed placeholder and its bytes are never read. Reading
//! the bytes of an image is the caller's part; this module is handed the
//! bytes, or `None` when the source could not be read.

use vstd::prelude::*;
use vstd::string::*;
use base64::Engine;
use crate::entries::File;
use crate::paths::{extension_of, spec_extension};

verus! {

/// The kind a file previews as, decided by its extension.
#[derive(Debug, Clone, Copy, PartialEq, Eq, Structural)]
pub enum FileKind {
    Image,
    Other,
}

/// A file's preview: its kind, and either encoded image content or the
/// placeholder.
#[derive(Debug)]
pub struct FilePreview {
    pub kind: FileKind,
    pub content: String,
}

/// The outcome of a preview request: a file preview, a directory's path, or
/// nothing when the index is out of range or the source is unreadable.
#[derive(Debug)]
pub enum PreviewData {
    File(FilePreview),
    Directory(String),
    Missing,
}

/// What the base64 standard-alphabet encoding of a byte sequence is; a
/// function of the bytes alone.
pub uninterp spec fn base64_of(bytes: Seq<u8>) -> Seq<char>;

/// Relies on base64's `STANDARD` engine (`Engine::encode`): the encoding is
/// a function of the input bytes alone.
#[verifier::external_body]
pub(crate) fn encode_base64(bytes: &Vec<u8>) -> (r: String)
    ensures
        r@ == base64_of(bytes@),
{
    base64::engine::general_purpose::STANDARD.encode(bytes.as_slice())
}

/// The placeholder content of a non-image preview.
pub open spec fn spec_placeholder() -> Seq<char> {
    "NA"@
}

/// The kind a path's extension classifies to: `jpg`, `png` and `gif` are
/// images, anything else — a missing extension included — is other.
pub open spec fn spec_file_kind(p: Seq<char>) -> FileKind {
    match spec_extension(p) {
        Option::Some(e) => {
            if e == "jpg"@ || e == "png"@ || e == "gif"@ {
                FileKind::Image
            } else {
                FileKind::Other
            }
        },
        Option::None => FileKind::Other,
    }
}

/// Classifies a file path by its extension, case-sensitively, against the
/// fixed image-extension table.
pub fn file_kind(path: &String) -> (r: FileKind)
    ensures
        r == spec_file_kind(path@),
{
    match extension_of(path.as_str()) {
        Option::None => FileKind::Other,
        Option::Some(e) => {
            let jpg = String::from_str("jpg");
            let png = String::from_str("png");
            let gif = String::from_str("gif");
            if e == jpg || e == png || e == gif {
                FileKind::Image
            } else {
                FileKind::Other
            }
        },
    }
}

/// What a file's preview must be, given its path, the bytes read for it (if
/// any), and the result: non-images carry the placeholder and never need
/// bytes; images carry their bytes base64-encoded, and have no preview when
/// the bytes could not be read.
pub open spec fn file_preview_post(
    p: Seq<char>,
    content: Option<Seq<u8>>,
    r: Option<FilePreview>,
) -> bool {
    match spec_file_kind(p) {
        FileKind::Other => (r matches Option::Some(fp) && fp.kind == FileKind::Other
            && fp.content@ == spec_placeholder()),
        FileKind::Image => (match content {
            Option::Some(b) => (r matches Option::Some(fp) && fp.kind == FileKind::Image
                && fp.content@ == base64_of(b)),
            Option::None => r is None,
        }),
    }
}

/// The bytes handed to a preview call, viewed as a ghost option.
pub open spec fn spec_content(content: Option<&Vec<u8>>) -> Option<Seq<u8>> {
    match content {
        Option::Some(b) => Option::Some(b@),
        Option::None => Option::None,
    }
}

/// Produces a file's preview from its path and, for images, its bytes;
/// `content` is `None` when the file could not be read, in which case an
/// image has no preview.
pub fn file_preview(path: &String, content: Option<&Vec<u8>>) -> (r: Option<FilePreview>)
    ensures
        file_preview_post(path@, spec_content(content), r),
{
    match file_kind(path) {
        FileKind::Image => {
            match content {
                Option::Some(bytes) => Option::Some(
                    FilePreview { kind: FileKind::Image, content: encode_base64(bytes) },
                ),
                Option::None => Option::None,
            }
        },
        FileKind::Other => Option::Some(
            FilePreview { kind: FileKind::Other, content: String::from_str("NA") },
        ),
    }
}

/// What a preview request at an index must yield: nothing beyond the
/// listing, a directory's own path for a directory, and the file preview of
/// [`file_preview_post`] for a file.
pub open spec fn preview_post(
    files: Seq<File>,
    index: int,
    content: Option<Seq<u8>>,
    r: PreviewData,
) -> bool {
    if !(0 <= index < files.len()) {
        r is Missing
    } else {
        match files[index] {
            File::Directory(p) => (r matches PreviewData::Directory(s) && s@ == p@),
            File::File(p) => (match spec_file_kind(p@) {
                FileKind::Other => (r matches PreviewData::File(fp) && fp.kind == FileKind::Other
                    && fp.content@ == spec_placeholder()),
                FileKind::Image => (match content {
                    Option::Some(b) => (r matches PreviewData::File(fp) && fp.kind
                        == FileKind::Image && fp.content@ == base64_of(b)),
                    Option::None => r is Missing,
                }),
            }),
        }
    }
}

/// Previews the entry at `index` of a listing. An out-of-range index yields
/// no preview rather than an error; a directory yields its path; a file
/// yields its preview, built from `content` when the file is an image.
pub fn get_file_preview(index: usize, file_paths: &Vec<File>, content: Option<&Vec<u8>>) -> (r:
    PreviewData)
    ensures
        preview_post(file_paths@, index as int, spec_content(content), r),
{
    if index >= file_paths.len() {
        return PreviewData::Missing;
    }
    match &file_paths[index] {
        File::Directory(p) => PreviewData::Directory(p.clone()),
        File::File(p) => {
            match file_preview(p, content) {
                Option::Some(fp) => PreviewData::File(fp),
                Option::None => PreviewData::Missing,
            }
        },
    }
}

/// The path whose bytes a preview request will need: the entry at `index`,
/// when it is a file classified as an image; previews of anything else read
/// no bytes.
pub fn preview_content_path(index: usize, file_paths: &Vec<File>) -> (r: Option<String>)
    ensures
        match r {
            Option::Some(p) => 0 <= index < file_paths@.len() && (file_paths@[index as int]
                matches File::File(q) && q@ == p@ && spec_file_kind(q@) == FileKind::Image),
            Option::None => !(0 <= index < file_paths@.len() && (file_paths@[index as int]
                matches File::File(q) && spec_file_kind(q@) == FileKind::Image)),
        },
{
    if index >= file_paths.len() {
        return Option::None;
    }
    match &file_paths[index] {
        File::Directory(_) => Option::None,
        File::File(p) => {
            match file_kind(p) {
                FileKind::Image => Option::Some(p.clone()),
                FileKind::Other => Option::None,
            }
        },
    }
}

} // verus!
