use vstd::prelude::*;
use vstd::slice::slice_subrange;
use crate::error::DecodeFault;
use crate::raster::{Image, Raster};

verus! {

/// `base64::DecodeError`: why a text is not valid base64. Nothing is read
/// from it.
#[verifier::external_type_specification]
#[verifier::external_body]
pub struct ExBase64DecodeError(base64::DecodeError);

/// `image::ImageError`: why an image could not be read or written. Nothing
/// is read from it.
#[verifier::external_type_specification]
#[verifier::external_body]
pub struct ExImageError(image::ImageError);

/// The bytes that a text of the standard base64 alphabet, with padding,
/// stands for; `None` where the text is not valid base64.
pub uninterp spec fn base64_decoded(input: Seq<u8>) -> Option<Seq<u8>>;

/// The image that an encoded file holds, as RGBA with eight bits to a
/// channel: its width, its height and its bytes. `None` where the format is
/// not recognised or the file cannot be read as that format.
pub uninterp spec fn image_decoded(file: Seq<u8>) -> Option<(nat, nat, Seq<u8>)>;

/// The PNG file of an RGBA image with eight bits to a channel; `None` where
/// the encoder refuses the image.
pub uninterp spec fn png_encoded(width: nat, height: nat, pixels: Seq<u8>) -> Option<Seq<u8>>;

/// The byte that ends the header of an encoded source image.
pub const HEADER_END: u8 = 44;

/// `i` is the place of the first `,` in `url`.
pub open spec fn is_header_end(url: Seq<u8>, i: int) -> bool {
    &&& 0 <= i < url.len()
    &&& url[i] == HEADER_END
    &&& forall|j: int| 0 <= j < i ==> url[j] != HEADER_END
}

/// What follows the first `,` of `url`, if it holds one.
pub open spec fn payload_of(url: Seq<u8>) -> Option<Seq<u8>> {
    if exists|i: int| is_header_end(url, i) {
        let i = choose|i: int| is_header_end(url, i);
        Some(url.subrange(i + 1, url.len() as int))
    } else {
        None
    }
}

/// The payload is so long that the decoder cannot count its chunks on this
/// machine.
pub open spec fn too_long(text: Seq<u8>) -> bool {
    text.len() + 7 > usize::MAX
}

/// The image that an encoded source stands for: the header up to the first
/// `,` is dropped, the rest is read as base64, and the bytes that come out
/// as an image file.
pub open spec fn decode_spec(url: Seq<u8>) -> Result<Image, DecodeFault> {
    match payload_of(url) {
        None => Err(DecodeFault::MissingHeader),
        Some(text) => if too_long(text) {
            Err(DecodeFault::Payload)
        } else {
            match base64_decoded(text) {
                None => Err(DecodeFault::Payload),
                Some(file) => match image_decoded(file) {
                    None => Err(DecodeFault::Image),
                    Some(t) => Ok(Image::of(t)),
                },
            }
        },
    }
}

/// The first `,` of a sequence is in one place only.
pub proof fn lemma_header_end_unique(url: Seq<u8>, i: int, j: int)
    requires
        is_header_end(url, i),
        is_header_end(url, j),
    ensures
        i == j,
{
}

/// Finds the first `,`.
pub fn header_end(url: &[u8]) -> (r: Option<usize>)
    ensures
        r matches Some(i) ==> is_header_end(url@, i as int),
        r is None ==> forall|i: int| !is_header_end(url@, i),
{
    let mut i: usize = 0;
    while i < url.len()
        invariant
            i <= url@.len(),
            forall|j: int| 0 <= j < i ==> url@[j] != HEADER_END,
        decreases url@.len() - i,
    {
        if url[i] == HEADER_END {
            return Some(i);
        }
        i = i + 1;
    }
    None
}

/// The payload of an encoded source image.
pub fn strip_header(url: &[u8]) -> (r: Option<&[u8]>)
    ensures
        r matches Some(text) ==> payload_of(url@) == Some(text@),
        r is None ==> payload_of(url@) is None,
{
    match header_end(url) {
        Some(i) => {
            assert(is_header_end(url@, i as int));
            assert(i < url.len());
            proof {
                let k = choose|k: int| is_header_end(url@, k);
                lemma_header_end_unique(url@, i as int, k);
            }
            Some(slice_subrange(url, i + 1, url.len()))
        },
        None => None,
    }
}

/// Trusted: `base64::decode` returns the bytes that the text stands for, or
/// an error where it is not valid base64; the outcome depends on the text
/// alone. It panics where the length of the text plus 7 overflows.
#[verifier::external_body]
fn base64_decode(text: &[u8]) -> (r: Result<Vec<u8>, base64::DecodeError>)
    requires
        !too_long(text@),
    ensures
        r matches Ok(v) ==> base64_decoded(text@) == Some(v@),
        r is Err ==> base64_decoded(text@) is None,
{
    base64::decode(text)
}

/// Trusted: `image::io::Reader`, with the format guessed from the bytes,
/// decodes the file or reports an error; the outcome depends on the bytes
/// alone.
#[verifier::external_body]
fn load_image(file: &[u8]) -> (r: Result<Raster, image::ImageError>)
    ensures
        r matches Ok(img) ==> image_decoded(file@) == Some(
            (img@.width, img@.height, img@.pixels),
        ),
        r is Err ==> image_decoded(file@) is None,
{
    let reader = image::io::Reader::new(std::io::Cursor::new(file))
        .with_guessed_format()
        .map_err(image::ImageError::IoError)?;
    let out = reader.decode()?.into_rgba8();
    Ok(Raster { width: out.width(), height: out.height(), pixels: out.into_raw() })
}

/// Trusted: `image::codecs::png::PngEncoder::write_image` writes the PNG
/// file of the raster, or reports an error; the outcome depends on the
/// raster alone.
#[verifier::external_body]
fn write_png(img: &Raster) -> (r: Result<Vec<u8>, image::ImageError>)
    ensures
        r matches Ok(v) ==> png_encoded(img@.width, img@.height, img@.pixels) == Some(v@),
        r is Err ==> png_encoded(img@.width, img@.height, img@.pixels) is None,
{
    let mut file = Vec::new();
    let encoder = image::codecs::png::PngEncoder::new(&mut file);
    image::ImageEncoder::write_image(
        encoder,
        &img.pixels,
        img.width,
        img.height,
        image::ColorType::Rgba8,
    )?;
    Ok(file)
}

/// Decodes one encoded source image, given as bytes.
pub fn decode_bytes(url: &[u8]) -> (r: Result<Raster, DecodeFault>)
    ensures
        r matches Ok(img) ==> decode_spec(url@) == Ok::<Image, DecodeFault>(img@),
        r matches Err(e) ==> decode_spec(url@) == Err::<Image, DecodeFault>(e),
{
    let text: &[u8] = match strip_header(url) {
        Some(t) => t,
        None => { return Err(DecodeFault::MissingHeader); },
    };
    if text.len() > usize::MAX - 7 {
        return Err(DecodeFault::Payload);
    }
    let file: Vec<u8> = match base64_decode(text) {
        Ok(v) => v,
        Err(_) => { return Err(DecodeFault::Payload); },
    };
    match load_image(file.as_slice()) {
        Ok(img) => Ok(img),
        Err(_) => Err(DecodeFault::Image),
    }
}

/// Decodes one encoded source image.
pub fn decode_image(url: &str) -> (r: Result<Raster, DecodeFault>)
    ensures
        r matches Ok(img) ==> decode_spec(vstd::utf8::encode_utf8(url@)) == Ok::<
            Image,
            DecodeFault,
        >(img@),
        r matches Err(e) ==> decode_spec(vstd::utf8::encode_utf8(url@)) == Err::<
            Image,
            DecodeFault,
        >(e),
{
    decode_bytes(url.as_bytes())
}

/// The PNG file of a raster, if it has one.
pub open spec fn encode_spec(img: Image) -> Option<Seq<u8>> {
    png_encoded(img.width, img.height, img.pixels)
}

/// Encodes a raster as a PNG file.
pub fn encode_img(img: &Raster) -> (r: Option<Vec<u8>>)
    ensures
        r matches Some(v) ==> encode_spec(img@) == Some(v@),
        r is None ==> encode_spec(img@) is None,
{
    match write_png(img) {
        Ok(v) => Some(v),
        Err(_) => None,
    }
}

} // verus!
