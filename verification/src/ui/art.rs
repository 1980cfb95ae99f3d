//! Cover pictures, from the bytes that the server sends to pixels.

use crate::ui::picture;
use image::ImageError;
use vstd::prelude::*;

verus! {

/// Declares the error of the `image` crate, which is carried through unread.
#[verifier::external_type_specification]
#[verifier::external_body]
pub struct ExImageError(ImageError);

/// A picture: three bytes for each pixel, row by row.
#[derive(Debug)]
pub struct AlbumArt {
    pub raw: Vec<u8>,
    pub width: u32,
    pub height: u32,
}

/// Why there is no picture.
#[derive(Debug)]
pub enum ArtError {
    /// The decoders find no picture in the bytes.
    Decode(ImageError),
    /// The bytes are of a picture that the decoders cannot be given.
    Unreadable,
}

impl AlbumArt {
    /// There are as many bytes as the pixels need.
    pub open spec fn well_formed(self) -> bool {
        self.raw@.len() == 3 * self.width * self.height
    }
}

/// The width and height of the picture in some bytes that the decoders can be given,
/// where they find one there.
pub uninterp spec fn picture_size(bytes: Seq<u8>) -> Option<(u32, u32)>;

/// The pixels of that picture, three bytes for each, row by row.
pub uninterp spec fn picture_pixels(bytes: Seq<u8>) -> Seq<u8>;

/// Calls `image::guess_format`, with the format that it gives
/// `image::load_from_memory_with_format`, and on the picture that comes of that
/// `DynamicImage::to_rgb8`, whose buffer, width and height are returned.
///
/// What comes back depends on the bytes alone. The format is looked up by the first
/// of them in a fixed table, so that there is no picture in no bytes; the headers,
/// the coding and the fixed limit on the picture's size decide whether there is one
/// and how wide and high it is; and its samples are reckoned in whole numbers by
/// the same formulas on every processor, whichever instructions it offers, and
/// those of sixteen bits of grey in single precision, which is the same everywhere.
///
/// The buffer holds exactly three bytes for each pixel: the decoder's buffer is
/// made as large as width, height and pixel size ask for, and the conversion
/// writes one pixel for each that it reads.
///
/// The bytes that the decoders of JPEG and PNG would panic on are left out.
#[verifier::external_body]
fn load_rgb(bytes: &[u8]) -> (r: Result<(Vec<u8>, u32, u32), ImageError>)
    requires
        picture::readable_picture(bytes@),
    ensures
        r is Ok ==> bytes@.len() > 0,
        r matches Ok((raw, width, height)) ==> raw@.len() == 3 * width * height,
        picture_size(bytes@) == (match r {
            Ok((raw, width, height)) => Some((width, height)),
            Err(e) => None,
        }),
        r matches Ok((raw, width, height)) ==> raw@ == picture_pixels(bytes@),
{
    let format = match image::guess_format(bytes) {
        Ok(format) => format,
        Err(e) => return Err(e),
    };
    match image::load_from_memory_with_format(bytes, format) {
        Ok(picture) => {
            let rgb = picture.to_rgb8();
            let (width, height) = rgb.dimensions();
            Ok((rgb.into_raw(), width, height))
        },
        Err(e) => Err(e),
    }
}

/// The picture, or why there is none, from what the decoder gave.
pub fn art_from_decoded(decoded: Result<(Vec<u8>, u32, u32), ImageError>) -> (r: Result<
    AlbumArt,
    ArtError,
>)
    ensures
        match decoded {
            Ok((raw, width, height)) => r == Ok::<AlbumArt, ArtError>(
                AlbumArt { raw, width, height },
            ),
            Err(e) => r == Err::<AlbumArt, ArtError>(ArtError::Decode(e)),
        },
{
    match decoded {
        Ok((raw, width, height)) => Ok(AlbumArt { raw, width, height }),
        Err(e) => Err(ArtError::Decode(e)),
    }
}

/// The picture in some bytes. Bytes that the decoders cannot be given are refused;
/// in others there is a picture exactly where the decoders find one, and it has that
/// picture's size and pixels.
pub fn decode_art(bytes: &[u8]) -> (r: Result<AlbumArt, ArtError>)
    ensures
        !picture::readable_picture(bytes@) ==> r == Err::<AlbumArt, ArtError>(ArtError::Unreadable),
        picture::readable_picture(bytes@) ==> match r {
            Ok(art) => {
                &&& art.well_formed()
                &&& picture_size(bytes@) == Some((art.width, art.height))
                &&& art.raw@ == picture_pixels(bytes@)
            },
            Err(e) => e is Decode && picture_size(bytes@) is None,
        },
        bytes@.len() == 0 ==> r is Err,
{
    if picture::is_readable_picture(bytes) {
        art_from_decoded(load_rgb(bytes))
    } else {
        Err(ArtError::Unreadable)
    }
}

} // verus!
