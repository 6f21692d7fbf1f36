//! What can go wrong with fonts, whatever contains them.

use vstd::prelude::*;

use crate::error::Error;

verus! {

/// Errors that can occur when working with fonts.
#[derive(Clone, Copy, Debug, PartialEq, Eq)]
pub enum FontError {
    /// The font handler could not read or write the font.
    C2paFontHandlerIoError,
    /// The font handler could not save the font.
    C2paFontHandlerSaveError,
    /// Bad parameter
    BadParam(&'static str),
    /// Bad head table, when the magic number is not recognized.
    BadHeadTable,
    /// IO error while dealing with a potentially font-related file/stream.
    IoError,
    /// Invalid named table encountered.
    InvalidNamedTable(&'static str),
    /// The JUMBF data was not found.
    JumbfNotFound,
    /// The font's 'C2PA' table contains invalid UTF-8 data.
    LoadC2PATableInvalidUtf8,
    /// The font's 'C2PA' table is truncated.
    LoadC2PATableTruncated,
    /// The font's 'head' table is truncated.
    LoadHeadTableTruncated,
    /// The font's 'DSIG' table is truncated.
    LoadDSIGTableTruncated,
    /// The font could not be saved.
    SaveError(FontSaveError),
    /// Failed to create a string from a byte array.
    StringFromUtf8,
    /// The SVG feature is not enabled
    SvgFeatureNotEnabled,
    /// Invalid or unsupported font format
    Unsupported,
    /// Failed to convert a byte array to a string as UTF-8.
    Utf8Error,
    /// XMP could not be made, or changed.
    XmpError(&'static str),
    /// The font holds nothing that XMP can be made of.
    XmpNotFound,
}

/// Errors that can occur when saving a font.
#[derive(Clone, Copy, Debug, PartialEq, Eq)]
pub enum FontSaveError {
    /// The write operation failed.
    FailedToWrite,
    /// The font's table directory has more than just the 'C2PA' table added.
    TooManyTablesAdded,
    /// The font's table directory has more than just the 'C2PA' table removed.
    TooManyTablesRemoved,
    /// An unexpected table was found in the table directory, with this tag.
    UnexpectedTable([u8; 4]),
    /// A new table which wasn't C2PA was added.
    NonC2PATableAdded,
}

/// A font error as an error of the library.
pub fn wrap_font_err(e: FontError) -> (r: Error)
    ensures
        r == Error::FontError(e),
{
    Error::FontError(e)
}

/// The 'head' table's checksumAdjustment value should be such that the whole-
/// font checksum comes out to this value.
pub const SFNT_EXPECTED_CHECKSUM: u32 = 0xb1b0afba;

} // verus!
