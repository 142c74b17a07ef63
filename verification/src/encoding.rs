use vstd::prelude::*;
use base64::Engine;
use image::ImageEncoder;
use crate::pixels::{Picture, PictureView};
use crate::text::{chars_of, copy_range, starts_with, starts_with_seq, string_of};

verus! {

#[verifier::external_type_specification]
#[verifier::external_body]
pub struct ExDecodeError(base64::DecodeError);

#[verifier::external_type_specification]
#[verifier::external_body]
pub struct ExImageError(image::ImageError);

/// The standard base64 text (with padding) of some bytes, as `base64`'s `STANDARD` engine
/// writes it.
pub uninterp spec fn base64_text(bytes: Seq<u8>) -> Seq<char>;

/// The bytes that `base64`'s `STANDARD` engine decodes from a text, or `None` where it
/// reports an error.
pub uninterp spec fn base64_bytes(text: Seq<char>) -> Option<Seq<u8>>;

/// The PNG file that `image`'s `PngEncoder` (default compression and filter) writes for
/// an 8-bit RGBA image, or `None` where it reports an error.
pub uninterp spec fn png_encoding(width: u32, height: u32, rgba: Seq<u8>) -> Option<Seq<u8>>;

/// What `image::load_from_memory` followed by conversion to 8-bit RGBA gives for some
/// bytes: width, height and pixel bytes, or `None` where it reports an error.
pub uninterp spec fn png_decoding(bytes: Seq<u8>) -> Option<(u32, u32, Seq<u8>)>;

/// Calls `Engine::encode` of `base64::engine::general_purpose::STANDARD`.
/// Claimed: the text is `base64_text(bytes@)`.
#[verifier::external_body]
fn base64_encode(bytes: &[u8]) -> (r: String)
    ensures
        r@ == base64_text(bytes@),
{
    base64::engine::general_purpose::STANDARD.encode(bytes)
}

/// Calls `Engine::decode` of `base64::engine::general_purpose::STANDARD`.
/// Claimed: it succeeds exactly where `base64_bytes` is defined and gives those bytes, and
/// a text written by `Engine::encode` of the same engine decodes to the bytes it was
/// written from.
#[verifier::external_body]
fn base64_decode(text: &str) -> (r: Result<Vec<u8>, base64::DecodeError>)
    ensures
        r is Err <==> base64_bytes(text@) is None,
        r matches Ok(v) ==> base64_bytes(text@) == Some(v@),
        r is Ok || forall|b: Seq<u8>| #[trigger] base64_text(b) != text@,
        r matches Ok(v) ==> forall|b: Seq<u8>| #[trigger] base64_text(b) == text@ ==> v@ == b,
{
    base64::engine::general_purpose::STANDARD.decode(text)
}

/// The message of a base64 decoding error (its `Display` text); nothing is claimed of it.
#[verifier::external_body]
fn decode_error_text(error: &base64::DecodeError) -> String {
    error.to_string()
}

/// The message of an `image` error (its `Display` text); nothing is claimed of it.
#[verifier::external_body]
fn image_error_text(error: &image::ImageError) -> String {
    error.to_string()
}

/// Calls `ImageEncoder::write_image` of `image::codecs::png::PngEncoder` on 8-bit RGBA
/// pixels, writing into a byte vector. Claimed: it succeeds exactly where `png_encoding`
/// is defined and the bytes written are that file. The encoder panics unless there are
/// four bytes per pixel, which `requires` rules out.
#[verifier::external_body]
fn png_encode(width: u32, height: u32, rgba: &[u8]) -> (r: Result<Vec<u8>, image::ImageError>)
    requires
        rgba@.len() == width as int * height as int * 4,
    ensures
        r is Err <==> png_encoding(width, height, rgba@) is None,
        r matches Ok(v) ==> png_encoding(width, height, rgba@) == Some(v@),
{
    let mut png: Vec<u8> = Vec::new();
    let written = image::codecs::png::PngEncoder::new(&mut png).write_image(
        rgba,
        width,
        height,
        image::ExtendedColorType::Rgba8,
    );
    written.map(|()| png)
}

/// A picture size for which a PNG written by `png_encode` reads back unchanged through
/// `png_decode`: not empty, four bytes per pixel, and at most 256 MiB of pixels, well
/// inside the 512 MiB that `image::load_from_memory` allows by default.
pub open spec fn png_round_trip_size(width: u32, height: u32, rgba: Seq<u8>) -> bool {
    &&& width > 0
    &&& height > 0
    &&& rgba.len() == width as int * height as int * 4
    &&& rgba.len() <= 0x1000_0000
}

/// Calls `image::load_from_memory` and converts the image to 8-bit RGBA
/// (`DynamicImage::into_rgba8`). Claimed: it succeeds exactly where `png_decoding` is
/// defined and gives that size and those pixels, four bytes per pixel; and a PNG that
/// `PngEncoder` wrote for 8-bit RGBA pixels of a size within `png_round_trip_size` reads
/// back as that size and those pixels (PNG is lossless, the encoder writes 8-bit RGBA and
/// the decoder keeps 8-bit RGBA as it is).
#[verifier::external_body]
fn png_decode(bytes: &[u8]) -> (r: Result<(u32, u32, Vec<u8>), image::ImageError>)
    ensures
        r is Err <==> png_decoding(bytes@) is None,
        r matches Ok((w, h, v)) ==> png_decoding(bytes@) == Some((w, h, v@)),
        r matches Ok((w, h, v)) ==> v@.len() == w as int * h as int * 4,
        r is Ok || forall|w: u32, h: u32, px: Seq<u8>|
            png_round_trip_size(w, h, px) ==> #[trigger] png_encoding(w, h, px) != Some(bytes@),
        r matches Ok((w2, h2, v)) ==> forall|w: u32, h: u32, px: Seq<u8>|
            png_round_trip_size(w, h, px) && #[trigger] png_encoding(w, h, px) == Some(bytes@)
                ==> (w2 == w && h2 == h && v@ == px),
{
    match image::load_from_memory(bytes) {
        Ok(decoded) => {
            let rgba = decoded.into_rgba8();
            let (width, height) = rgba.dimensions();
            Ok((width, height, rgba.into_raw()))
        },
        Err(error) => Err(error),
    }
}

/// `data:image/png;base64,`, the start of a PNG data URL.
pub open spec fn png_data_url_prefix() -> Seq<char> {
    "data:image/png;base64,"@
}

/// The message for a stored image that is not a PNG data URL.
pub open spec fn bad_image_data_error() -> Seq<char> {
    "图片格式无效"@
}

/// The data URL of PNG bytes: the prefix `data:image/png;base64,` and the standard base64
/// text of the bytes.
pub fn png_data_url_from_bytes(bytes: &[u8]) -> (r: String)
    ensures
        r@ == png_data_url_prefix() + base64_text(bytes@),
{
    let mut url = String::from_str("data:image/png;base64,");
    let encoded = base64_encode(bytes);
    url.append(encoded.as_str());
    url
}

/// The picture as a PNG file.
pub fn png_bytes(picture: &Picture) -> (r: Result<Vec<u8>, String>)
    ensures
        r is Ok <==> png_encoding(picture@.width, picture@.height, picture@.pixels) is Some,
        r matches Ok(v) ==> png_encoding(picture@.width, picture@.height, picture@.pixels) == Some(
            v@,
        ),
{
    let width = picture.width();
    let height = picture.height();
    let rgba = picture.rgba();
    match png_encode(width, height, rgba) {
        Ok(png) => Ok(png),
        Err(error) => Err(image_error_text(&error)),
    }
}

/// The picture as a PNG data URL.
pub fn png_data_url(picture: &Picture) -> (r: Result<String, String>)
    ensures
        r is Ok <==> png_encoding(picture@.width, picture@.height, picture@.pixels) is Some,
        r matches Ok(s) ==> s@ == png_data_url_prefix() + base64_text(
            png_encoding(picture@.width, picture@.height, picture@.pixels).unwrap(),
        ),
{
    let png = png_bytes(picture)?;
    Ok(png_data_url_from_bytes(png.as_slice()))
}

/// The base64 part of a data URL: what follows the prefix.
pub open spec fn data_url_payload(url: Seq<char>) -> Seq<char> {
    url.subrange(png_data_url_prefix().len() as int, url.len() as int)
}

/// The PNG bytes held by a data URL. A text that does not start with
/// `data:image/png;base64,` is refused with its message; otherwise the rest is decoded as
/// standard base64. The data URL of any bytes gives those bytes back.
pub fn image_bytes_from_data_url(data_url: &str) -> (r: Result<Vec<u8>, String>)
    ensures
        !starts_with_seq(data_url@, png_data_url_prefix()) ==> (r matches Err(e) && e@
            == bad_image_data_error()),
        starts_with_seq(data_url@, png_data_url_prefix()) ==> {
            &&& r is Ok <==> base64_bytes(data_url_payload(data_url@)) is Some
            &&& r matches Ok(v) ==> base64_bytes(data_url_payload(data_url@)) == Some(v@)
        },
        forall|b: Seq<u8>|
            data_url@ == png_data_url_prefix() + #[trigger] base64_text(b) ==> (r matches Ok(v)
                && v@ == b),
{
    let prefix_text = "data:image/png;base64,";
    let prefix = chars_of(prefix_text);
    let url = chars_of(data_url);
    if !starts_with(&url, &prefix) {
        proof {
            assert forall|b: Seq<u8>|
                data_url@ != png_data_url_prefix() + #[trigger] base64_text(b) by {
                if data_url@ == png_data_url_prefix() + base64_text(b) {
                    assert(data_url@.subrange(0, prefix@.len() as int) =~= prefix@);
                }
            }
        }
        return Err(String::from_str("图片格式无效"));
    }
    let payload = string_of(&copy_range(&url, prefix.len(), url.len()));
    proof {
        assert forall|b: Seq<u8>|
            data_url@ == png_data_url_prefix() + #[trigger] base64_text(b) implies payload@
                == base64_text(b) by {
            assert(data_url@.subrange(prefix@.len() as int, data_url@.len() as int)
                =~= base64_text(b));
        }
    }
    match base64_decode(payload.as_str()) {
        Ok(bytes) => Ok(bytes),
        Err(error) => Err(decode_error_text(&error)),
    }
}

/// The picture held by PNG (or other image file) bytes.
pub fn picture_from_png(bytes: &[u8]) -> (r: Result<Picture, String>)
    ensures
        r is Ok <==> png_decoding(bytes@) is Some,
        r matches Ok(p) ==> png_decoding(bytes@) == Some((p@.width, p@.height, p@.pixels)),
        forall|w: u32, h: u32, px: Seq<u8>|
            png_round_trip_size(w, h, px) && #[trigger] png_encoding(w, h, px) == Some(bytes@)
                ==> (r matches Ok(p) && p@ == (PictureView { width: w, height: h, pixels: px })),
{
    match png_decode(bytes) {
        Ok((width, height, rgba)) => {
            match Picture::new(width, height, rgba) {
                Some(picture) => Ok(picture),
                None => {
                    proof {
                        assert(false);
                    }
                    Err(String::new())
                },
            }
        },
        Err(error) => Err(image_error_text(&error)),
    }
}

/// The picture stored as a PNG data URL, with the PNG bytes it was decoded from. Refused
/// with `图片格式无效` when the text is not a PNG data URL, and with the decoder's message
/// when the base64 text or the image does not decode. The data URL of a picture's PNG
/// (as `png_data_url` writes it) gives that picture and that PNG back.
pub fn picture_from_data_url(data_url: &str) -> (r: Result<(Picture, Vec<u8>), String>)
    ensures
        !starts_with_seq(data_url@, png_data_url_prefix()) ==> (r matches Err(e) && e@
            == bad_image_data_error()),
        r matches Ok((p, png)) ==> {
            &&& starts_with_seq(data_url@, png_data_url_prefix())
            &&& base64_bytes(data_url_payload(data_url@)) == Some(png@)
            &&& png_decoding(png@) == Some((p@.width, p@.height, p@.pixels))
        },
        starts_with_seq(data_url@, png_data_url_prefix()) ==> (r is Ok <==> (base64_bytes(
            data_url_payload(data_url@),
        ) matches Some(png) && png_decoding(png) is Some)),
        forall|b: Seq<u8>|
            data_url@ == png_data_url_prefix() + #[trigger] base64_text(b) ==> {
                &&& r is Ok <==> png_decoding(b) is Some
                &&& r matches Ok((p, png)) ==> png@ == b && png_decoding(b) == Some(
                    (p@.width, p@.height, p@.pixels),
                )
            },
        forall|w: u32, h: u32, px: Seq<u8>, png: Seq<u8>|
            png_round_trip_size(w, h, px) && #[trigger] png_encoding(w, h, px) == Some(png)
                && data_url@ == png_data_url_prefix() + #[trigger] base64_text(png) ==> (r matches Ok(
                (p, bytes),
            ) && p@ == (PictureView { width: w, height: h, pixels: px }) && bytes@ == png),
{
    let png = image_bytes_from_data_url(data_url)?;
    let picture = picture_from_png(png.as_slice())?;
    Ok((picture, png))
}

} // verus!
