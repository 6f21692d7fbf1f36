//! Thumbnails of fonts.

use vstd::prelude::*;

use vstd::string::{StrSliceExecFns, StringExecFns};

use crate::font::error::FontError;
use crate::text::{is_one_of, one_of, str_eq};

verus! {

/// The MIME types, and the extensions used in their place, of the fonts that are handled.
pub open spec fn font_mime_types() -> Seq<&'static str> {
    seq![
        "application/font-sfnt",
        "application/x-font-ttf",
        "application/x-font-opentype",
        "application/x-font-truetype",
        "font/otf",
        "font/sfnt",
        "font/ttf",
        "otf",
        "sfnt",
        "ttf",
    ]
}

/// Checks of the mime type is a valid supported font mime type
pub fn is_font_mime_type(mime: &str) -> (r: bool)
    ensures
        r == one_of(mime@, font_mime_types()),
{
    let types: Vec<&str> = vec![
        "application/font-sfnt",
        "application/x-font-ttf",
        "application/x-font-opentype",
        "application/x-font-truetype",
        "font/otf",
        "font/sfnt",
        "font/ttf",
        "otf",
        "sfnt",
        "ttf",
    ];
    proof {
        assert(types@ =~= font_mime_types());
    }
    is_one_of(mime, &types)
}

/// Whether `ext` is "otf" or "ttf", in letters of either case.
pub open spec fn is_font_extension(ext: Seq<char>) -> bool {
    &&& ext.len() == 3
    &&& ext[0] == 'o' || ext[0] == 'O' || ext[0] == 't' || ext[0] == 'T'
    &&& ext[1] == 't' || ext[1] == 'T'
    &&& ext[2] == 'f' || ext[2] == 'F'
}

/// Checks if the file is a supported font type
pub fn is_supported_font_file(ext: &str) -> (r: bool)
    ensures
        r == is_font_extension(ext@),
{
    if ext.unicode_len() != 3 {
        return false;
    }
    let a: char = ext.get_char(0);
    let b: char = ext.get_char(1);
    let c: char = ext.get_char(2);
    (a == 'o' || a == 'O' || a == 't' || a == 'T') && (b == 't' || b == 'T') && (c == 'f' || c
        == 'F')
}

// Making a thumbnail.

/// The formats of thumbnails.
#[derive(Clone, Copy, Debug, PartialEq, Eq, Structural)]
pub enum ThumbnailFormat {
    Png,
    Svg,
}

/// Why a thumbnail could not be made.
#[derive(Clone, Debug, PartialEq, Eq)]
pub enum ThumbnailError {
    /// The font could not be handled.
    FontError(FontError),
    /// Anything else, in words.
    OtherError(String),
}

/// The format to render a thumbnail in: SVG where it is asked for, which may not be enabled, and
/// PNG else.
pub open spec fn rendered_format(use_svg: Option<bool>, svg_enabled: bool) -> Result<
    ThumbnailFormat,
    FontError,
> {
    if use_svg != Some(true) {
        Ok(ThumbnailFormat::Png)
    } else if svg_enabled {
        Ok(ThumbnailFormat::Svg)
    } else {
        Err(FontError::SvgFeatureNotEnabled)
    }
}

/// The format that a MIME type stands for, or the words that there is none.
pub open spec fn format_of(mime_type: Seq<char>) -> Result<ThumbnailFormat, Seq<char>> {
    if mime_type == "image/svg+xml"@ {
        Ok(ThumbnailFormat::Svg)
    } else if mime_type == "image/png"@ {
        Ok(ThumbnailFormat::Png)
    } else {
        Err("Unsupported MIME type: "@ + mime_type)
    }
}

/// The format of a thumbnail with the given MIME type, or the words that there is none.
pub fn thumbnail_format(mime_type: &str) -> (r: Result<ThumbnailFormat, String>)
    ensures
        match r {
            Ok(format) => format_of(mime_type@) == Ok::<ThumbnailFormat, Seq<char>>(format),
            Err(text) => format_of(mime_type@) == Err::<ThumbnailFormat, Seq<char>>(text@),
        },
{
    if str_eq(mime_type, "image/svg+xml") {
        Ok(ThumbnailFormat::Svg)
    } else if str_eq(mime_type, "image/png") {
        Ok(ThumbnailFormat::Png)
    } else {
        let text: String = "Unsupported MIME type: ".to_owned();
        Err(text.concat(mime_type))
    }
}

/// A thumbnail: its format and the image.
pub type Thumbnail = (ThumbnailFormat, Vec<u8>);

/// Makes a PNG (by default) or SVG (when `use_svg` is true) thumbnail. `render` makes the image in
/// the given format, and tells its MIME type.
///
/// Returns the format and the image if successful.
pub fn make_thumbnail_from_stream<F>(use_svg: Option<bool>, svg_enabled: bool, render: F) -> (r:
    Result<Option<Thumbnail>, ThumbnailError>) where
    F: FnOnce(ThumbnailFormat) -> Result<(Vec<u8>, String), String>,

    requires
        forall|format: ThumbnailFormat| render.requires((format,)),
    ensures
        match rendered_format(use_svg, svg_enabled) {
            Err(err) => r == Err::<Option<Thumbnail>, ThumbnailError>(
                ThumbnailError::FontError(err),
            ),
            Ok(format) => exists|made: Result<(Vec<u8>, String), String>|
                {
                    &&& #[trigger] render.ensures((format,), made)
                    &&& match made {
                        Err(text) => r == Err::<Option<Thumbnail>, ThumbnailError>(
                            ThumbnailError::OtherError(text),
                        ),
                        Ok((data, mime_type)) => match format_of(mime_type@) {
                            Ok(format) => r == Ok::<Option<Thumbnail>, ThumbnailError>(
                                Some((format, data)),
                            ),
                            Err(words) => r matches Err(ThumbnailError::OtherError(text)) && text@
                                == words,
                        },
                    }
                },
        },
{
    let wanted: ThumbnailFormat = match use_svg {
        Some(true) => {
            if !svg_enabled {
                return Err(ThumbnailError::FontError(FontError::SvgFeatureNotEnabled));
            }
            ThumbnailFormat::Svg
        },
        _ => ThumbnailFormat::Png,
    };
    let (data, mime_type) = match render(wanted) {
        Ok(made) => made,
        Err(text) => return Err(ThumbnailError::OtherError(text)),
    };
    match thumbnail_format(mime_type.as_str()) {
        Ok(format) => Ok(Some((format, data))),
        Err(text) => Err(ThumbnailError::OtherError(text)),
    }
}

} // verus!
