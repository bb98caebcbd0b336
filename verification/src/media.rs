//! What a file is, told by the extension of its name.
use crate::bytes::{lower, same, to_lower};
use crate::path::{extension, extension_of};
use vstd::prelude::*;
use vstd::string::*;
use vstd::utf8::{encode_utf8, encode_utf8_decode_utf8};

verus! {

/// The extension of a path in lower case; empty where the path has none.
pub open spec fn lower_extension_of(p: Seq<u8>) -> Seq<u8> {
    match extension_of(p) {
        Some(ext) => lower(ext),
        None => Seq::empty(),
    }
}

/// The media type of the images that have a given extension, in lower case.
pub open spec fn image_type(ext: Seq<u8>) -> Option<Seq<char>> {
    if ext == "png".spec_bytes() {
        Some("image/png"@)
    } else if ext == "jpg".spec_bytes() || ext == "jpeg".spec_bytes() {
        Some("image/jpeg"@)
    } else if ext == "gif".spec_bytes() {
        Some("image/gif"@)
    } else if ext == "svg".spec_bytes() {
        Some("image/svg+xml"@)
    } else if ext == "webp".spec_bytes() {
        Some("image/webp"@)
    } else if ext == "bmp".spec_bytes() {
        Some("image/bmp"@)
    } else if ext == "ico".spec_bytes() {
        Some("image/x-icon"@)
    } else {
        None
    }
}

/// Whether a path names an image.
pub open spec fn is_image(p: Seq<u8>) -> bool {
    image_type(lower_extension_of(p)) is Some
}

/// The content type with which a path is served.
pub open spec fn content_type_of(p: Seq<u8>) -> Seq<char> {
    match image_type(lower_extension_of(p)) {
        Some(media) => media,
        None => "application/octet-stream"@,
    }
}

/// Whether a path names a text that can be shown as a page. Upper and lower case differ here.
pub open spec fn is_markdown_name(p: Seq<u8>) -> bool {
    match extension_of(p) {
        Some(ext) => ext == "md".spec_bytes() || ext == "markdown".spec_bytes() || ext
            == "txt".spec_bytes(),
        None => false,
    }
}

/// The extension of a path with its ASCII letters in lower case; empty where the path has none.
///
/// Folding ASCII letters is enough to recognise an image: no character outside ASCII has one of the
/// letters of the known extensions as its lower case form.
fn lower_extension(p: &[u8]) -> (r: Vec<u8>)
    ensures
        r@ == lower_extension_of(p@),
{
    match extension(p) {
        Some(ext) => to_lower(ext.as_slice()),
        None => Vec::new(),
    }
}

/// The media type of an image by its extension in lower case.
fn image_type_for(ext: &[u8]) -> (r: Option<String>)
    ensures
        match r {
            Some(media) => image_type(ext@) == Some(media@),
            None => image_type(ext@) is None,
        },
{
    if same(ext, "png".as_bytes()) {
        Some("image/png".to_string())
    } else if same(ext, "jpg".as_bytes()) || same(ext, "jpeg".as_bytes()) {
        Some("image/jpeg".to_string())
    } else if same(ext, "gif".as_bytes()) {
        Some("image/gif".to_string())
    } else if same(ext, "svg".as_bytes()) {
        Some("image/svg+xml".to_string())
    } else if same(ext, "webp".as_bytes()) {
        Some("image/webp".to_string())
    } else if same(ext, "bmp".as_bytes()) {
        Some("image/bmp".to_string())
    } else if same(ext, "ico".as_bytes()) {
        Some("image/x-icon".to_string())
    } else {
        None
    }
}

/// Whether a requested path names an image: only images are served as static files.
pub fn is_image_file(file_path: &str) -> (r: bool)
    ensures
        r == is_image(file_path.spec_bytes()),
{
    image_type_for(lower_extension(file_path.as_bytes()).as_slice()).is_some()
}

/// The content type with which a requested path is served.
pub fn guess_image_content_type(file_path: &str) -> (r: String)
    ensures
        r@ == content_type_of(file_path.spec_bytes()),
{
    match image_type_for(lower_extension(file_path.as_bytes()).as_slice()) {
        Some(media) => media,
        None => "application/octet-stream".to_string(),
    }
}

/// Whether a path names a text that can be shown as a page.
pub fn is_markdown_file(p: &[u8]) -> (r: bool)
    ensures
        r == is_markdown_name(p@),
{
    match extension(p) {
        Some(ext) => same(ext.as_slice(), "md".as_bytes()) || same(
            ext.as_slice(),
            "markdown".as_bytes(),
        ) || same(ext.as_slice(), "txt".as_bytes()),
        None => false,
    }
}

/// A path is an image exactly when its content type is that of an image.
pub proof fn law_images_have_image_types(p: Seq<u8>)
    ensures
        is_image(p) <==> "image/"@.is_prefix_of(content_type_of(p)),
{
    reveal_strlit("image/");
    reveal_strlit("image/png");
    reveal_strlit("image/jpeg");
    reveal_strlit("image/gif");
    reveal_strlit("image/svg+xml");
    reveal_strlit("image/webp");
    reveal_strlit("image/bmp");
    reveal_strlit("image/x-icon");
    reveal_strlit("application/octet-stream");
    let media = content_type_of(p);
    if is_image(p) {
        assert("image/"@ =~= media.subrange(0, 6));
    } else {
        assert("image/"@[0] != media.subrange(0, 6)[0]);
    }
}

/// The content type of a path goes by its extension, in which upper and lower case are alike, and is that
/// of bytes where the extension is not one of an image.
pub proof fn law_content_type_goes_by_the_extension(p: Seq<u8>, ext: Seq<u8>)
    requires
        extension_of(p) == Some(ext),
    ensures
        lower(ext) == "png".spec_bytes() ==> content_type_of(p) == "image/png"@,
        lower(ext) == "jpg".spec_bytes() ==> content_type_of(p) == "image/jpeg"@,
        lower(ext) == "jpeg".spec_bytes() ==> content_type_of(p) == "image/jpeg"@,
        lower(ext) == "gif".spec_bytes() ==> content_type_of(p) == "image/gif"@,
        lower(ext) == "svg".spec_bytes() ==> content_type_of(p) == "image/svg+xml"@,
        lower(ext) == "webp".spec_bytes() ==> content_type_of(p) == "image/webp"@,
        lower(ext) == "bmp".spec_bytes() ==> content_type_of(p) == "image/bmp"@,
        lower(ext) == "ico".spec_bytes() ==> content_type_of(p) == "image/x-icon"@,
        is_image(p) <==> lower(ext) == "png".spec_bytes() || lower(ext) == "jpg".spec_bytes()
            || lower(ext) == "jpeg".spec_bytes() || lower(ext) == "gif".spec_bytes() || lower(ext)
            == "svg".spec_bytes() || lower(ext) == "webp".spec_bytes() || lower(ext)
            == "bmp".spec_bytes() || lower(ext) == "ico".spec_bytes(),
        !is_image(p) ==> content_type_of(p) == "application/octet-stream"@,
        is_markdown_name(p) <==> ext == "md".spec_bytes() || ext == "markdown".spec_bytes() || ext
            == "txt".spec_bytes(),
{
    lemma_extensions_differ();
}

/// Different texts have different bytes.
proof fn lemma_bytes_differ(a: Seq<char>, b: Seq<char>)
    requires
        a != b,
    ensures
        encode_utf8(a) != encode_utf8(b),
{
    encode_utf8_decode_utf8(a);
    encode_utf8_decode_utf8(b);
}

proof fn lemma_extensions_differ()
    ensures
        "jpg".spec_bytes() != "png".spec_bytes(),
        "jpeg".spec_bytes() != "png".spec_bytes(),
        "gif".spec_bytes() != "png".spec_bytes(),
        "gif".spec_bytes() != "jpg".spec_bytes(),
        "gif".spec_bytes() != "jpeg".spec_bytes(),
        "svg".spec_bytes() != "png".spec_bytes(),
        "svg".spec_bytes() != "jpg".spec_bytes(),
        "svg".spec_bytes() != "jpeg".spec_bytes(),
        "svg".spec_bytes() != "gif".spec_bytes(),
        "webp".spec_bytes() != "png".spec_bytes(),
        "webp".spec_bytes() != "jpg".spec_bytes(),
        "webp".spec_bytes() != "jpeg".spec_bytes(),
        "webp".spec_bytes() != "gif".spec_bytes(),
        "webp".spec_bytes() != "svg".spec_bytes(),
        "bmp".spec_bytes() != "png".spec_bytes(),
        "bmp".spec_bytes() != "jpg".spec_bytes(),
        "bmp".spec_bytes() != "jpeg".spec_bytes(),
        "bmp".spec_bytes() != "gif".spec_bytes(),
        "bmp".spec_bytes() != "svg".spec_bytes(),
        "bmp".spec_bytes() != "webp".spec_bytes(),
        "ico".spec_bytes() != "png".spec_bytes(),
        "ico".spec_bytes() != "jpg".spec_bytes(),
        "ico".spec_bytes() != "jpeg".spec_bytes(),
        "ico".spec_bytes() != "gif".spec_bytes(),
        "ico".spec_bytes() != "svg".spec_bytes(),
        "ico".spec_bytes() != "webp".spec_bytes(),
        "ico".spec_bytes() != "bmp".spec_bytes(),
{
    reveal_strlit("png");
    reveal_strlit("jpg");
    reveal_strlit("jpeg");
    reveal_strlit("gif");
    reveal_strlit("svg");
    reveal_strlit("webp");
    reveal_strlit("bmp");
    reveal_strlit("ico");
    assert("jpg"@[0] != "png"@[0]);
    lemma_bytes_differ("jpg"@, "png"@);
    assert("jpeg"@.len() != "png"@.len());
    lemma_bytes_differ("jpeg"@, "png"@);
    assert("gif"@[0] != "png"@[0]);
    lemma_bytes_differ("gif"@, "png"@);
    assert("gif"@[0] != "jpg"@[0]);
    lemma_bytes_differ("gif"@, "jpg"@);
    assert("gif"@.len() != "jpeg"@.len());
    lemma_bytes_differ("gif"@, "jpeg"@);
    assert("svg"@[0] != "png"@[0]);
    lemma_bytes_differ("svg"@, "png"@);
    assert("svg"@[0] != "jpg"@[0]);
    lemma_bytes_differ("svg"@, "jpg"@);
    assert("svg"@.len() != "jpeg"@.len());
    lemma_bytes_differ("svg"@, "jpeg"@);
    assert("svg"@[0] != "gif"@[0]);
    lemma_bytes_differ("svg"@, "gif"@);
    assert("webp"@.len() != "png"@.len());
    lemma_bytes_differ("webp"@, "png"@);
    assert("webp"@.len() != "jpg"@.len());
    lemma_bytes_differ("webp"@, "jpg"@);
    assert("webp"@[0] != "jpeg"@[0]);
    lemma_bytes_differ("webp"@, "jpeg"@);
    assert("webp"@.len() != "gif"@.len());
    lemma_bytes_differ("webp"@, "gif"@);
    assert("webp"@.len() != "svg"@.len());
    lemma_bytes_differ("webp"@, "svg"@);
    assert("bmp"@[0] != "png"@[0]);
    lemma_bytes_differ("bmp"@, "png"@);
    assert("bmp"@[0] != "jpg"@[0]);
    lemma_bytes_differ("bmp"@, "jpg"@);
    assert("bmp"@.len() != "jpeg"@.len());
    lemma_bytes_differ("bmp"@, "jpeg"@);
    assert("bmp"@[0] != "gif"@[0]);
    lemma_bytes_differ("bmp"@, "gif"@);
    assert("bmp"@[0] != "svg"@[0]);
    lemma_bytes_differ("bmp"@, "svg"@);
    assert("bmp"@.len() != "webp"@.len());
    lemma_bytes_differ("bmp"@, "webp"@);
    assert("ico"@[0] != "png"@[0]);
    lemma_bytes_differ("ico"@, "png"@);
    assert("ico"@[0] != "jpg"@[0]);
    lemma_bytes_differ("ico"@, "jpg"@);
    assert("ico"@.len() != "jpeg"@.len());
    lemma_bytes_differ("ico"@, "jpeg"@);
    assert("ico"@[0] != "gif"@[0]);
    lemma_bytes_differ("ico"@, "gif"@);
    assert("ico"@[0] != "svg"@[0]);
    lemma_bytes_differ("ico"@, "svg"@);
    assert("ico"@.len() != "webp"@.len());
    lemma_bytes_differ("ico"@, "webp"@);
    assert("ico"@[0] != "bmp"@[0]);
    lemma_bytes_differ("ico"@, "bmp"@);
}

/// A path without an extension is neither an image nor a text.
pub proof fn law_no_extension_no_kind(p: Seq<u8>)
    requires
        extension_of(p) is None,
    ensures
        !is_image(p),
        !is_markdown_name(p),
        content_type_of(p) == "application/octet-stream"@,
{
    let none = Seq::<char>::empty();
    assert(encode_utf8(none) =~= Seq::empty());
    reveal_strlit("png");
    lemma_bytes_differ("png"@, none);
    reveal_strlit("jpg");
    lemma_bytes_differ("jpg"@, none);
    reveal_strlit("jpeg");
    lemma_bytes_differ("jpeg"@, none);
    reveal_strlit("gif");
    lemma_bytes_differ("gif"@, none);
    reveal_strlit("svg");
    lemma_bytes_differ("svg"@, none);
    reveal_strlit("webp");
    lemma_bytes_differ("webp"@, none);
    reveal_strlit("bmp");
    lemma_bytes_differ("bmp"@, none);
    reveal_strlit("ico");
    lemma_bytes_differ("ico"@, none);
}

} // verus!
