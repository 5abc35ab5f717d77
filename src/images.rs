//! The `Image` tag: a thumbnail small enough is inlined as a data URL,
//! a larger one is left to be copied next to the page.
use std::io::Cursor;

use base64::Engine;
use vstd::prelude::*;
use vstd::utf8::encode_utf8;

use crate::answers::{find_image, lookup, Answers, AnswersModel, Request, RequestModel};
use crate::elements::{option_view, parse_u32, u32_of};
use crate::model::{element_model, ElementModel, TemplateType};
use crate::text::{split, split_on, strings_view, lemma_split_on_len};

verus! {

/// The start of an inlined image's URL.
pub const DATA_URL_PREFIX: &'static str = "data:image/jpg;base64,";

/// An inlined image's URL may take at most this many bytes.
pub const MAXIMUM_B64_SIZE: usize = 1000;

/// The width and height that a thumbnail fits in when the tag gives none.
pub const DEFAULT_IMAGE_SIZE: u32 = 200;

/// The quality of the JPEG encoding of thumbnails.
pub const JPEG_QUALITY: u8 = 70;

/// Longest input that the base64 encoder takes without its length
/// computation overflowing.
pub const MAXIMUM_ENCODED_INPUT: usize = 0x3fff_ffff;

/// The standard base64 text, with padding, of `data`.
pub uninterp spec fn base64_of(data: Seq<u8>) -> Seq<char>;

/// Relies on image's `ImageFormat::from_path` (the format that the file
/// name's extension names), `load_from_memory_with_format`,
/// `DynamicImage::resize` with the nearest-neighbour filter, and
/// `DynamicImage::write_to` as JPEG, for the JPEG bytes of the image in
/// `data` scaled to fit in a square of side `size`; `None` when the
/// extension names no format or `data` cannot be decoded in it. The decoders
/// may choose machine-specific code at run time, so nothing is promised of
/// the bytes.
#[verifier::external_body]
fn jpeg_thumbnail(path: &str, data: &[u8], size: u32, quality: u8) -> (r: Option<Vec<u8>>)
{
    let format = image::ImageFormat::from_path(path).ok()?;
    let img = image::load_from_memory_with_format(data, format).ok()?;
    let img = img.resize(size, size, image::imageops::FilterType::Nearest);
    let mut buf: Vec<u8> = Vec::new();
    let format = image::ImageOutputFormat::Jpeg(quality);
    img.write_to(&mut Cursor::new(&mut buf), format).ok()?;
    Some(buf)
}

/// Relies on base64's `general_purpose::STANDARD.encode`, which panics only
/// when the output length overflows, and writes four characters of the
/// base64 alphabet for each started group of three bytes (`encoded_len`
/// with padding).
#[verifier::external_body]
fn base64_encode(data: &[u8]) -> (r: String)
    requires
        data@.len() <= MAXIMUM_ENCODED_INPUT,
    ensures
        r@ == base64_of(data@),
        r@.len() == 4 * ((data@.len() + 2) / 3),
{
    base64::engine::general_purpose::STANDARD.encode(data)
}

/// The number of bytes of `s` in UTF-8, as a machine word holds it.
pub open spec fn byte_len(s: Seq<char>) -> usize {
    encode_utf8(s).len() as usize
}

/// The number of bytes of `data_url` in UTF-8.
pub fn get_img_b64_size(data_url: &str) -> (r: usize)
    ensures
        r == byte_len(data_url@),
{
    data_url.len()
}

/// The image element for `url`, given the data URL of its thumbnail: the
/// data URL itself when it takes at most the allowed number of bytes, else
/// the relative URL, marked for copying.
pub open spec fn image_model(url: Seq<char>, size: Option<u32>, data_url: Seq<char>) -> ElementModel {
    if byte_len(data_url) <= MAXIMUM_B64_SIZE {
        ElementModel::Image(data_url, false, size)
    } else {
        ElementModel::Image(url, true, size)
    }
}

/// Decides between inlining and copying an image.
pub fn image_element(url: String, size: Option<u32>, data_url: String) -> (r: TemplateType)
    ensures
        element_model(r) == image_model(url@, size, data_url@),
{
    if get_img_b64_size(data_url.as_str()) <= MAXIMUM_B64_SIZE {
        TemplateType::Image { url: data_url, copy_asset: false, size }
    } else {
        TemplateType::Image { url, copy_asset: true, size }
    }
}

/// The data URL of the JPEG bytes `jpeg`; `None` when they are too long to
/// encode.
pub open spec fn jpeg_data_url(jpeg: Seq<u8>) -> Option<Seq<char>> {
    if jpeg.len() <= MAXIMUM_ENCODED_INPUT {
        Some(DATA_URL_PREFIX@ + base64_of(jpeg))
    } else {
        None
    }
}

/// The data URL of the JPEG bytes `jpeg`.
pub fn data_url_from_jpeg(jpeg: &[u8]) -> (r: Option<String>)
    ensures
        match r {
            Some(u) => jpeg_data_url(jpeg@) == Some(u@),
            None => jpeg_data_url(jpeg@) is None,
        },
        r matches Some(u) ==> u@.len() == DATA_URL_PREFIX@.len() + 4 * ((jpeg@.len() + 2) / 3),
{
    if jpeg.len() > MAXIMUM_ENCODED_INPUT {
        return None;
    }
    let encoded = base64_encode(jpeg);
    Some(String::from_str(DATA_URL_PREFIX).concat(encoded.as_str()))
}

/// The side of the square that a thumbnail is fitted to: the size the tag
/// asks for, or the default size.
pub fn thumbnail_side(size: Option<u32>) -> (r: u32)
    ensures
        r == (match size {
            Some(s) => s,
            None => DEFAULT_IMAGE_SIZE,
        }),
{
    match size {
        Some(s) => s,
        None => DEFAULT_IMAGE_SIZE,
    }
}

/// The image in `data`, read from the file `path`, as a data URL of its JPEG
/// thumbnail, fitted to `thumbnail_side(size)` at quality `JPEG_QUALITY`;
/// `None` when the image cannot be read in the format that the file's
/// extension names. The thumbnail's bytes depend on the machine's decoder,
/// so what is promised is the shape of the result.
pub fn get_img_as_b64_url(path: &str, data: &[u8], size: Option<u32>) -> (r: Option<String>)
    ensures
        r matches Some(u) ==> exists|jpeg: Seq<u8>| jpeg_data_url(jpeg) == Some(u@),
{
    let side = thumbnail_side(size);
    let jpeg = jpeg_thumbnail(path, data, side, JPEG_QUALITY)?;
    data_url_from_jpeg(jpeg.as_slice())
}

/// The size that an `Image` payload asks for: its second part, if that is
/// a number.
pub open spec fn image_size(payload: Seq<char>) -> Option<u32> {
    let args = split_on(payload, ',');
    if args.len() > 1 {
        u32_of(args[1])
    } else {
        None
    }
}

/// What `Image|path[,size]` resolves to: a request for the inline encoding
/// while it is unanswered; nothing when the image cannot be read or
/// decoded.
pub open spec fn image_tag(payload: Seq<char>, env: AnswersModel) -> Result<Option<ElementModel>, RequestModel> {
    let url = split_on(payload, ',')[0];
    let size = image_size(payload);
    match lookup(env.images, (url, size)) {
        None => Err(RequestModel::InlineImage(url, size)),
        Some(None) => Ok(None),
        Some(Some(data_url)) => Ok(Some(image_model(url, size, data_url))),
    }
}

/// `Image|path[,size]`.
pub fn parse_image(content: Option<&str>, answers: &Answers) -> (r: Result<
    Option<TemplateType>,
    Request,
>)
    ensures
        match option_view(content) {
            None => r == Ok::<Option<TemplateType>, Request>(None),
            Some(p) => match (r, image_tag(p, answers@)) {
                (Ok(Some(t)), Ok(Some(m))) => element_model(t) == m,
                (Ok(None), Ok(None)) => true,
                (Err(q), Err(m)) => crate::answers::request_model(q) == m,
                _ => false,
            },
        },
{
    let content = match content {
        Some(c) => c,
        None => return Ok(None),
    };
    let args = split(content, ',');
    proof {
        lemma_split_on_len(content@, ',');
    }
    let url = args[0].clone();
    let size = if args.len() > 1 {
        parse_u32(args[1].as_str())
    } else {
        None
    };
    assert(strings_view(args@)[0] == args@[0]@);
    assert(size == image_size(content@)) by {
        if args@.len() > 1 {
            assert(strings_view(args@)[1] == args@[1]@);
        }
    }
    match find_image(answers, &url, size) {
        None => Err(Request::InlineImage(url, size)),
        Some(None) => Ok(None),
        Some(Some(data_url)) => Ok(Some(image_element(url, size, data_url.clone()))),
    }
}

} // verus!
