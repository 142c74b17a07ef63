use vstd::prelude::*;
use std::hash::BuildHasher;
use crate::encoding::{base64_text, png_data_url, png_data_url_prefix, png_encoding};
use crate::format::{decimal, hex16, push_chars, push_decimal, push_hex_digits};
use crate::pixels::Picture;
use crate::text::string_of;

verus! {

/// What `BuildHasher::hash_one` gives for the tuple of a picture's width, height and pixel
/// bytes with a `DefaultHasher` made by `Default`. The standard library documents that
/// every `DefaultHasher` made by `new` or `default` hashes alike, so the value depends on
/// these arguments alone; its algorithm is undocumented and may differ between Rust
/// releases.
pub uninterp spec fn picture_hash(width: u32, height: u32, rgba: Seq<u8>) -> u64;

/// Hashes the picture's width, height and pixel bytes, in that order, with a
/// `DefaultHasher` made by `Default` (`BuildHasher::hash_one`). Claimed: the value is
/// `picture_hash` of the arguments; nothing is claimed of how it is computed.
#[verifier::external_body]
fn hash_picture(width: u32, height: u32, rgba: &[u8]) -> (r: u64)
    ensures
        r == picture_hash(width, height, rgba@),
{
    std::hash::BuildHasherDefault::<std::collections::hash_map::DefaultHasher>::default().hash_one(
        (width, height, rgba),
    )
}

/// The signature of an image given by its size and pixel bytes: a hash of them, the same
/// for the same size and bytes.
pub fn image_signature(width: u32, height: u32, rgba: &[u8]) -> (r: u64)
    ensures
        r == picture_hash(width, height, rgba@),
{
    hash_picture(width, height, rgba)
}

/// The signature of a picture: a hash of its size and pixels, the same for pictures
/// with the same size and pixels.
pub fn picture_signature(picture: &Picture) -> (r: u64)
    ensures
        r == picture_hash(picture@.width, picture@.height, picture@.pixels),
{
    image_signature(picture.width(), picture.height(), picture.rgba())
}

/// The history text of an image: `[图片] <width> x <height> #<signature>`, the numbers in
/// decimal and the signature as sixteen hexadecimal digits.
pub open spec fn image_label(width: u32, height: u32, signature: u64) -> Seq<char> {
    seq!['[', '图', '片', ']', ' '] + decimal(width as nat) + seq![' ', 'x', ' '] + decimal(
        height as nat,
    ) + seq![' ', '#'] + hex16(signature)
}

/// The history text of an image of the given size and signature.
pub fn describe_image(width: u32, height: u32, signature: u64) -> (r: String)
    ensures
        r@ == image_label(width, height, signature),
{
    let mut out: Vec<char> = Vec::new();
    let head = ['[', '图', '片', ']', ' '];
    let times = [' ', 'x', ' '];
    let hash = [' ', '#'];
    push_chars(&mut out, &head);
    push_decimal(&mut out, width as u128);
    push_chars(&mut out, &times);
    push_decimal(&mut out, height as u128);
    push_chars(&mut out, &hash);
    push_hex_digits(&mut out, signature, 16);
    assert(out@ =~= image_label(width, height, signature));
    string_of(&out)
}

/// The history text of a picture, with its signature.
pub fn image_content(picture: &Picture) -> (r: String)
    ensures
        r@ == image_label(
            picture@.width,
            picture@.height,
            picture_hash(picture@.width, picture@.height, picture@.pixels),
        ),
{
    let signature = picture_signature(picture);
    describe_image(picture.width(), picture.height(), signature)
}

/// A copied image as it is to be stored: its history text and its PNG data URL.
pub struct ImageEntry {
    pub content: String,
    pub image_data: String,
}

/// The history entry of a copied picture, or the encoder's message when it cannot be
/// written as PNG.
pub fn prepare_image_entry(picture: &Picture) -> (r: Result<ImageEntry, String>)
    ensures
        r is Ok <==> png_encoding(picture@.width, picture@.height, picture@.pixels) is Some,
        r matches Ok(e) ==> {
            &&& e.content@ == image_label(
                picture@.width,
                picture@.height,
                picture_hash(picture@.width, picture@.height, picture@.pixels),
            )
            &&& e.image_data@ == png_data_url_prefix() + base64_text(
                png_encoding(picture@.width, picture@.height, picture@.pixels).unwrap(),
            )
        },
{
    let image_data = png_data_url(picture)?;
    Ok(ImageEntry { content: image_content(picture), image_data })
}

/// The file name of a screenshot taken at the given time:
/// `pasteboost-screenshot-<milliseconds>.png`.
pub open spec fn screenshot_file_name_spec(timestamp_millis: u128) -> Seq<char> {
    "pasteboost-screenshot-"@ + decimal(timestamp_millis as nat) + ".png"@
}

/// The file name under which a screenshot is saved.
pub fn screenshot_file_name(timestamp_millis: u128) -> (r: String)
    ensures
        r@ == screenshot_file_name_spec(timestamp_millis),
{
    let mut digits: Vec<char> = Vec::new();
    push_decimal(&mut digits, timestamp_millis);
    let mut name = String::from_str("pasteboost-screenshot-");
    name.append(string_of(&digits).as_str());
    name.append(".png");
    name
}

/// What the clipboard listener found on one look at the clipboard.
pub enum ClipboardObservation {
    /// An image, with its signature.
    Image { signature: u64 },
    /// Text.
    Text { content: String },
    /// Neither an image nor text could be read.
    Nothing,
}

/// What a look at the clipboard found, given what could be read: an image is preferred
/// to text, and nothing was found when neither could be read.
pub open spec fn observation_of(image_signature: Option<u64>, text: Option<String>) -> ClipboardObservation {
    match image_signature {
        Some(signature) => ClipboardObservation::Image { signature },
        None => match text {
            Some(content) => ClipboardObservation::Text { content },
            None => ClipboardObservation::Nothing,
        },
    }
}

/// Turns what could be read from the clipboard into one observation: the signature of an
/// image when an image could be read, otherwise the text when text could be read,
/// otherwise nothing.
pub fn observe_clipboard(image_signature: Option<u64>, text: Option<String>) -> (r: ClipboardObservation)
    ensures
        r == observation_of(image_signature, text),
{
    match image_signature {
        Some(signature) => ClipboardObservation::Image { signature },
        None => match text {
            Some(content) => ClipboardObservation::Text { content },
            None => ClipboardObservation::Nothing,
        },
    }
}

/// What the listener is to do after a look at the clipboard.
#[derive(PartialEq, Eq, Structural, Clone, Copy, Debug)]
pub enum ListenerAction {
    /// Nothing new: do nothing.
    Idle,
    /// A new image: store it.
    StoreImage,
    /// New text: store it.
    StoreText,
}

/// The signature by which the listener recognises clipboard content it has already seen:
/// `image:` and sixteen hexadecimal digits for an image, `text:` and the text for text.
pub open spec fn observation_signature(o: ClipboardObservation) -> Option<Seq<char>> {
    match o {
        ClipboardObservation::Image { signature } => Some("image:"@ + hex16(signature)),
        ClipboardObservation::Text { content } => Some("text:"@ + content@),
        ClipboardObservation::Nothing => None,
    }
}

/// One step of the clipboard listener, from the last signature seen, whether listening
/// is on and what was found: the next last signature and the action.
pub open spec fn listener_next(
    last: Seq<char>,
    listening: bool,
    o: ClipboardObservation,
) -> (Seq<char>, ListenerAction) {
    if !listening {
        (last, ListenerAction::Idle)
    } else {
        match observation_signature(o) {
            None => (last, ListenerAction::Idle),
            Some(s) => if s == last {
                (last, ListenerAction::Idle)
            } else {
                (
                    s,
                    if o is Image {
                        ListenerAction::StoreImage
                    } else {
                        ListenerAction::StoreText
                    },
                )
            },
        }
    }
}

/// Decides what the clipboard listener does with one look at the clipboard: while
/// listening is off nothing happens; content whose signature equals the last one seen is
/// ignored; new content becomes the last seen and is to be stored.
pub fn listener_step(
    last_signature: &mut String,
    listening: bool,
    observed: &ClipboardObservation,
) -> (r: ListenerAction)
    ensures
        (final(last_signature)@, r) == listener_next(old(last_signature)@, listening, *observed),
{
    if !listening {
        return ListenerAction::Idle;
    }
    match observed {
        ClipboardObservation::Image { signature } => {
            let mut text: Vec<char> = Vec::new();
            push_hex_digits(&mut text, *signature, 16);
            let mut s = String::from_str("image:");
            s.append(string_of(&text).as_str());
            assert(s@ == "image:"@ + hex16(*signature));
            if s == *last_signature {
                ListenerAction::Idle
            } else {
                *last_signature = s;
                ListenerAction::StoreImage
            }
        },
        ClipboardObservation::Text { content } => {
            let mut s = String::from_str("text:");
            s.append(content.as_str());
            if s == *last_signature {
                ListenerAction::Idle
            } else {
                *last_signature = s;
                ListenerAction::StoreText
            }
        },
        ClipboardObservation::Nothing => ListenerAction::Idle,
    }
}

/// Looking twice at unchanged clipboard content stores it at most once: after any step,
/// a second step with the same content does nothing and keeps the last signature.
pub proof fn unchanged_content_is_stored_once(
    last: Seq<char>,
    listening: bool,
    o: ClipboardObservation,
)
    ensures
        ({
            let (next, _) = listener_next(last, listening, o);
            listener_next(next, listening, o) == (next, ListenerAction::Idle)
        }),
{
}

/// An image and a text never share a signature: while listening, an image found after
/// text was last seen is always stored, and so is text found after an image.
pub proof fn image_and_text_never_collide(signature: u64, content: Seq<char>)
    ensures
        "image:"@ + hex16(signature) != "text:"@ + content,
{
    reveal_strlit("image:");
    reveal_strlit("text:");
    assert(("image:"@ + hex16(signature))[0] == 'i');
    assert(("text:"@ + content)[0] == 't');
}

} // verus!
