//! The numeric codes under which an image's format is kept in the metadata store.

use vstd::prelude::*;

verus! {

/// The image formats that the metadata store can record.
#[derive(Clone, Copy, Debug, PartialEq, Eq, Structural)]
pub enum ImageFormat {
    Png,
    Jpeg,
    Gif,
    WebP,
    Pnm,
    Tiff,
    Tga,
    Dds,
    Bmp,
    Ico,
    Hdr,
    OpenExr,
    Farbfeld,
    Avif,
    Qoi,
}

/// The stored code of each format.
pub open spec fn format_code(format: ImageFormat) -> int {
    match format {
        ImageFormat::Png => 0,
        ImageFormat::Jpeg => 1,
        ImageFormat::Gif => 2,
        ImageFormat::WebP => 3,
        ImageFormat::Pnm => 4,
        ImageFormat::Tiff => 5,
        ImageFormat::Tga => 6,
        ImageFormat::Dds => 7,
        ImageFormat::Bmp => 8,
        ImageFormat::Ico => 9,
        ImageFormat::Hdr => 10,
        ImageFormat::OpenExr => 11,
        ImageFormat::Farbfeld => 12,
        ImageFormat::Avif => 13,
        ImageFormat::Qoi => 14,
    }
}

/// A code that some format is stored under.
pub open spec fn is_format_code(code: int) -> bool {
    0 <= code <= 14
}

/// Encodes a format as the integer the store keeps.
pub fn format_to_i64(format: ImageFormat) -> (code: i64)
    ensures
        code == format_code(format),
{
    match format {
        ImageFormat::Png => 0,
        ImageFormat::Jpeg => 1,
        ImageFormat::Gif => 2,
        ImageFormat::WebP => 3,
        ImageFormat::Pnm => 4,
        ImageFormat::Tiff => 5,
        ImageFormat::Tga => 6,
        ImageFormat::Dds => 7,
        ImageFormat::Bmp => 8,
        ImageFormat::Ico => 9,
        ImageFormat::Hdr => 10,
        ImageFormat::OpenExr => 11,
        ImageFormat::Farbfeld => 12,
        ImageFormat::Avif => 13,
        ImageFormat::Qoi => 14,
    }
}

/// Decodes a stored code; only the codes that `format_to_i64` produces are accepted.
pub fn i64_to_format(format_id: i64) -> (format: ImageFormat)
    requires
        is_format_code(format_id as int),
    ensures
        format_code(format) == format_id,
{
    match format_id {
        0 => ImageFormat::Png,
        1 => ImageFormat::Jpeg,
        2 => ImageFormat::Gif,
        3 => ImageFormat::WebP,
        4 => ImageFormat::Pnm,
        5 => ImageFormat::Tiff,
        6 => ImageFormat::Tga,
        7 => ImageFormat::Dds,
        8 => ImageFormat::Bmp,
        9 => ImageFormat::Ico,
        10 => ImageFormat::Hdr,
        11 => ImageFormat::OpenExr,
        12 => ImageFormat::Farbfeld,
        13 => ImageFormat::Avif,
        _ => ImageFormat::Qoi,
    }
}

/// Every format is stored under a valid code, and no two formats share a code:
/// decoding what was encoded gives the same format back.
pub proof fn lemma_format_code_injective(a: ImageFormat, b: ImageFormat)
    ensures
        is_format_code(format_code(a)),
        format_code(a) == format_code(b) ==> a == b,
{
}

/// Every valid code is the code of some format: encoding what was decoded gives
/// the same code back.
pub proof fn lemma_format_code_surjective(code: int)
    requires
        is_format_code(code),
    ensures
        exists|f: ImageFormat| format_code(f) == code,
{
    let f = if code == 0 { ImageFormat::Png } else if code == 1 { ImageFormat::Jpeg } else if code == 2 {
        ImageFormat::Gif
    } else if code == 3 { ImageFormat::WebP } else if code == 4 { ImageFormat::Pnm } else if code == 5 {
        ImageFormat::Tiff
    } else if code == 6 { ImageFormat::Tga } else if code == 7 { ImageFormat::Dds } else if code == 8 {
        ImageFormat::Bmp
    } else if code == 9 { ImageFormat::Ico } else if code == 10 { ImageFormat::Hdr } else if code == 11 {
        ImageFormat::OpenExr
    } else if code == 12 { ImageFormat::Farbfeld } else if code == 13 { ImageFormat::Avif } else {
        ImageFormat::Qoi
    };
    assert(format_code(f) == code);
}

} // verus!
