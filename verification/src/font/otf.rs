//! OpenType and TrueType fonts, with their manifest in a table of its own.

use vstd::prelude::*;

use crate::asset::{HashBlockObjectType, HashObjectPositions, RemoteRefEmbedType};
use crate::endian::{put_bytes, read_u16, read_u32, u16_at, u32_at, Endianness};
use crate::error::Error;
use crate::font::table::{
    bytes_result, table_result, text_of, text_result, C2paTable, FontModel, FontTable, TableModel,
};

verus! {

/// Various valid version tags seen in a OTF/TTF file.
#[derive(Clone, Copy, Debug, PartialEq, Eq, Structural)]
pub enum FontVersion {
    /// TrueType (ttf) version for Windows and/or Adobe
    TrueType,
    /// OpenType (otf) version
    OpenType,
    /// Old style PostScript font housed in a sfnt wrapper
    Typ1,
    /// 'true' font, a TrueType font for OS X and iOS only
    AppleTrue,
}

/// The number that stands for a version at the start of a font.
pub open spec fn version_tag(version: FontVersion) -> u32 {
    match version {
        FontVersion::TrueType => 0x00010000,
        FontVersion::OpenType => 0x4f54544f,
        FontVersion::Typ1 => 0x74797031,
        FontVersion::AppleTrue => 0x74727565,
    }
}

impl FontVersion {
    /// Tries to convert from u32 to a valid font version.
    pub fn try_from(v: u32) -> (r: Result<FontVersion, ()>)
        ensures
            match r {
                Ok(version) => v == version_tag(version),
                Err(_) => forall|version: FontVersion| v != #[trigger] version_tag(version),
            },
    {
        if v == 0x00010000 {
            Ok(FontVersion::TrueType)
        } else if v == 0x4f54544f {
            Ok(FontVersion::OpenType)
        } else if v == 0x74797031 {
            Ok(FontVersion::Typ1)
        } else if v == 0x74727565 {
            Ok(FontVersion::AppleTrue)
        } else {
            Err(())
        }
    }
}

// Where the manifest is.

/// The size of what comes before the table directory.
pub const TABLE_HEADER_SIZE: usize = 12;

/// The size of an entry of the table directory.
pub const TABLE_ENTRY_SIZE: usize = 16;

/// Where an entry of the table directory is.
pub open spec fn entry_place(k: int) -> int {
    TABLE_HEADER_SIZE + TABLE_ENTRY_SIZE * k
}

/// Whether `source` is long enough to hold an entry of the table directory.
pub open spec fn entry_fits(source: Seq<u8>, k: int) -> bool {
    entry_place(k) + TABLE_ENTRY_SIZE <= source.len()
}

/// Whether an entry is that of the 'C2PA' table.
pub open spec fn is_c2pa_entry(source: Seq<u8>, k: int) -> bool {
    &&& source[entry_place(k)] == 0x43
    &&& source[entry_place(k) + 1] == 0x32
    &&& source[entry_place(k) + 2] == 0x50
    &&& source[entry_place(k) + 3] == 0x41
}

/// The entry of the 'C2PA' table among the entries from `k` up to `count`, as far as they fit.
pub open spec fn c2pa_entry(source: Seq<u8>, k: int, count: int) -> Option<int>
    decreases count - k,
{
    if k >= count || !entry_fits(source, k) {
        None
    } else if is_c2pa_entry(source, k) {
        Some(k)
    } else {
        c2pa_entry(source, k + 1, count)
    }
}

/// How many entries are looked at: as many as the font has tables, and one at least.
pub open spec fn entries_examined(tables: int) -> int {
    if tables == 0 {
        1
    } else {
        tables
    }
}

/// The ranges that are not hashed: the entry of the 'C2PA' table and the table itself, or all of
/// a font that has none.
pub open spec fn otf_locations(source: Seq<u8>) -> Seq<HashObjectPositions> {
    let tables = u16_at(Endianness::Big, source, 4);
    match c2pa_entry(source, 0, entries_examined(tables)) {
        Some(k) => seq![
            HashObjectPositions {
                offset: entry_place(k) as usize,
                length: TABLE_ENTRY_SIZE,
                htype: HashBlockObjectType::Cai,
            },
            HashObjectPositions {
                offset: u32_at(Endianness::Big, source, entry_place(k) + 8) as usize,
                length: u32_at(Endianness::Big, source, entry_place(k) + 12) as usize,
                htype: HashBlockObjectType::Cai,
            },
        ],
        None => seq![
            HashObjectPositions {
                offset: 0,
                length: source.len() as usize,
                htype: HashBlockObjectType::Cai,
            },
        ],
    }
}

/// Whether `source` starts with the version of a font.
pub open spec fn has_version(source: Seq<u8>) -> bool {
    exists|version: FontVersion|
        u32_at(Endianness::Big, source, 0) == #[trigger] version_tag(version)
}

/// Gets a collection of positions of hash objects, which are to be excluded from the hashing.
pub fn get_object_locations_from_stream(source: &[u8]) -> (r: Result<
    Vec<HashObjectPositions>,
    Error,
>)
    ensures
        match r {
            Ok(positions) => {
                &&& source@.len() >= 6
                &&& has_version(source@)
                &&& positions@ == otf_locations(source@)
            },
            Err(err) => if source@.len() < 4 {
                err == Error::IoError
            } else if !has_version(source@) {
                err == Error::UnsupportedFontError
            } else {
                source@.len() < 6 && err == Error::IoError
            },
        },
{
    // Verify the font has a valid version in it before assuming the rest is
    // valid.
    let sfnt_u32: u32 = read_u32(source, 0, Endianness::Big)?;
    if FontVersion::try_from(sfnt_u32).is_err() {
        return Err(Error::UnsupportedFontError);
    }
    let num_tables: u16 = read_u16(source, 4, Endianness::Big)?;
    let mut positions: Vec<HashObjectPositions> = Vec::new();
    let mut table_counter: usize = 0;
    let mut place: usize = TABLE_HEADER_SIZE;
    let ghost count = entries_examined(num_tables as int);
    while place <= source.len() && source.len() - place >= TABLE_ENTRY_SIZE
        invariant_except_break
            positions@.len() == 0,
            place == entry_place(table_counter as int),
            table_counter < count,
            c2pa_entry(source@, 0, count) == c2pa_entry(source@, table_counter as int, count),
        invariant
            source@.len() >= 6,
            has_version(source@),
            num_tables == u16_at(Endianness::Big, source@, 4),
            count == entries_examined(num_tables as int),
        ensures
            positions@.len() == 0,
            c2pa_entry(source@, 0, count) is None,
        decreases source@.len() - place,
    {
        if source[place] == 0x43 && source[place + 1] == 0x32 && source[place + 2] == 0x50
            && source[place + 3] == 0x41 {
            // We will need to add a position for the 'C2PA' entry since the
            // checksum changes.
            positions.push(
                HashObjectPositions {
                    offset: place,
                    length: TABLE_ENTRY_SIZE,
                    htype: HashBlockObjectType::Cai,
                },
            );
            // And the table that it is the entry of.
            let offset: u32 = read_u32(source, place as u64 + 8, Endianness::Big)?;
            let length: u32 = read_u32(source, place as u64 + 12, Endianness::Big)?;
            positions.push(
                HashObjectPositions {
                    offset: offset as usize,
                    length: length as usize,
                    htype: HashBlockObjectType::Cai,
                },
            );
            proof {
                assert(positions@ =~= otf_locations(source@));
            }
            return Ok(positions);
        }
        proof {
            reveal_with_fuel(c2pa_entry, 2);
        }
        // If we have iterated over all of our tables, bail
        if table_counter + 1 >= num_tables as usize {
            break ;
        }
        table_counter = table_counter + 1;
        place = place + TABLE_ENTRY_SIZE;
    }
    // We must provide positions for operations to work, so if we don't have
    // one we will default to the entire file
    positions.push(
        HashObjectPositions { offset: 0, length: source.len(), htype: HashBlockObjectType::Cai },
    );
    proof {
        assert(positions@ =~= otf_locations(source@));
    }
    Ok(positions)
}

// What the 'C2PA' table becomes.

/// The 'C2PA' table, or why there is none.
pub open spec fn otf_table(font: FontModel) -> Result<TableModel, Error> {
    match font {
        FontModel::NotAFont => Err(Error::FontLoadError),
        FontModel::Unreadable => Err(Error::DeserializationError),
        FontModel::Absent => Err(Error::JumbfNotFound),
        FontModel::Present(table) => Ok(table),
    }
}

/// Reads the `C2PA` font table.
pub fn read_c2pa_from_stream(font: FontTable) -> (r: Result<C2paTable, Error>)
    ensures
        table_result(r) == otf_table(font@),
{
    match font {
        FontTable::NotAFont => Err(Error::FontLoadError),
        FontTable::Unreadable => Err(Error::DeserializationError),
        FontTable::Absent => Err(Error::JumbfNotFound),
        FontTable::Present(table) => Ok(table),
    }
}

/// The table to start from when one is changed: that of the font, or an empty one.
pub open spec fn otf_table_or_empty(font: FontModel) -> Result<TableModel, Error> {
    match font {
        FontModel::NotAFont => Err(Error::FontLoadError),
        FontModel::Unreadable => Err(Error::DeserializationError),
        FontModel::Absent => Ok(TableModel { active_manifest_uri: None, manifest_store: None }),
        FontModel::Present(table) => Ok(table),
    }
}

fn table_or_empty(font: FontTable) -> (r: Result<C2paTable, Error>)
    ensures
        table_result(r) == otf_table_or_empty(font@),
{
    match font {
        FontTable::NotAFont => Err(Error::FontLoadError),
        FontTable::Unreadable => Err(Error::DeserializationError),
        FontTable::Absent => Ok(C2paTable { active_manifest_uri: None, manifest_store: None }),
        FontTable::Present(table) => Ok(table),
    }
}

/// The table of a font that a manifest store is added to.
pub open spec fn otf_with_store(font: FontModel, store: Seq<u8>) -> Result<TableModel, Error> {
    match otf_table_or_empty(font) {
        Ok(table) => Ok(TableModel { manifest_store: Some(store), ..table }),
        Err(err) => Err(err),
    }
}

/// The 'C2PA' table that adds manifest store data to a font, whose reference to the active
/// manifest it keeps.
pub fn add_c2pa_to_stream(font: FontTable, manifest_store_data: &[u8]) -> (r: Result<
    C2paTable,
    Error,
>)
    ensures
        table_result(r) == otf_with_store(font@, manifest_store_data@),
{
    let table = table_or_empty(font)?;
    let mut store: Vec<u8> = Vec::new();
    put_bytes(&mut store, manifest_store_data);
    proof {
        assert(store@ =~= manifest_store_data@);
    }
    Ok(
        C2paTable {
            active_manifest_uri: table.active_manifest_uri,
            manifest_store: Some(store),
        },
    )
}

/// The table of a font that a reference to the active manifest is added to.
pub open spec fn otf_with_reference(font: FontModel, uri: Seq<char>) -> Result<TableModel, Error> {
    match otf_table_or_empty(font) {
        Ok(table) => Ok(TableModel { active_manifest_uri: Some(uri), ..table }),
        Err(err) => Err(err),
    }
}

/// The 'C2PA' table that adds the manifest URI reference to a font, whose manifest store it
/// keeps.
pub fn add_reference_to_stream(font: FontTable, manifest_uri: &str) -> (r: Result<
    C2paTable,
    Error,
>)
    ensures
        table_result(r) == otf_with_reference(font@, manifest_uri@),
{
    let table = table_or_empty(font)?;
    Ok(
        C2paTable {
            active_manifest_uri: Some(manifest_uri.to_owned()),
            manifest_store: table.manifest_store,
        },
    )
}

/// The reference to the active manifest.
pub open spec fn otf_reference(font: FontModel) -> Result<Option<Seq<char>>, Error> {
    match font {
        FontModel::NotAFont => Err(Error::DeserializationError),
        FontModel::Unreadable => Err(Error::DeserializationError),
        FontModel::Absent => Ok(None),
        FontModel::Present(table) => Ok(table.active_manifest_uri),
    }
}

/// Reads the C2PA manifest store reference from a font.
pub fn read_reference_to_stream(font: FontTable) -> (r: Result<Option<String>, Error>)
    ensures
        text_result(r) == otf_reference(font@),
{
    match read_c2pa_from_stream(font) {
        Ok(c2pa_data) => Ok(c2pa_data.active_manifest_uri),
        Err(Error::JumbfNotFound) => Ok(None),
        Err(_) => Err(Error::DeserializationError),
    }
}

/// What becomes of the 'C2PA' table of a font.
#[derive(Clone, Debug, PartialEq, Eq)]
pub enum TableChange {
    /// The table stays as it is.
    Keep,
    /// The table is removed.
    Remove,
    /// The table is replaced, or added.
    Replace(C2paTable),
}

/// What the 'C2PA' table of a font is once it is changed.
pub open spec fn changed(font: FontModel, change: TableChange) -> FontModel {
    match change {
        TableChange::Keep => font,
        TableChange::Remove => FontModel::Absent,
        TableChange::Replace(table) => FontModel::Present(table@),
    }
}

/// Remove the `C2PA` font table from a font, whether it can be read or not.
pub fn remove_c2pa_from_stream(font: &FontTable) -> (r: Result<TableChange, Error>)
    ensures
        match r {
            Ok(change) => !(font@ is NotAFont) && changed(font@, change) is Absent,
            Err(err) => font@ is NotAFont && err == Error::FontLoadError,
        },
{
    match font {
        FontTable::NotAFont => Err(Error::FontLoadError),
        _ => Ok(TableChange::Remove),
    }
}

/// Removes the reference to the active manifest from a font. Returns what becomes of its table,
/// and the reference that was removed, if there was one.
pub fn remove_reference_from_stream(font: FontTable) -> (r: Result<
    (TableChange, Option<String>),
    Error,
>)
    ensures
        match r {
            Ok((change, removed)) => match font@ {
                FontModel::Present(table) => {
                    &&& text_of(removed) == table.active_manifest_uri
                    &&& changed(font@, change) == FontModel::Present(
                        TableModel { active_manifest_uri: None, ..table },
                    )
                },
                FontModel::Absent => removed is None && changed(font@, change) is Absent,
                _ => false,
            },
            Err(err) => match font@ {
                FontModel::NotAFont => err == Error::FontLoadError,
                FontModel::Unreadable => err == Error::DeserializationError,
                _ => false,
            },
        },
{
    match font {
        FontTable::NotAFont => Err(Error::FontLoadError),
        FontTable::Unreadable => Err(Error::DeserializationError),
        FontTable::Absent => Ok((TableChange::Keep, None)),
        FontTable::Present(table) => {
            let without = C2paTable {
                active_manifest_uri: None,
                manifest_store: table.manifest_store,
            };
            Ok((TableChange::Replace(without), table.active_manifest_uri))
        },
    }
}

// The handler.

/// The manifest store of a font, which is empty where its table has none.
pub open spec fn otf_store(font: FontModel) -> Result<Seq<u8>, Error> {
    match otf_table(font) {
        Ok(table) => match table.manifest_store {
            Some(store) => Ok(store),
            None => Ok(Seq::empty()),
        },
        Err(err) => Err(err),
    }
}

/// The types of the fonts that are handled.
pub open spec fn otf_types() -> Seq<&'static str> {
    seq![
        "application/font-snft",
        "font/otf",
        "font/sfnt",
        "font/otf",
        "otf",
        "sfnt",
        "ttf",
    ]
}

/// Main OTF IO feature.
#[derive(Clone, Copy, Debug, PartialEq, Eq, Structural)]
pub struct OtfIO {}

impl OtfIO {
    /// A handler, the same one for every type.
    pub fn new(_asset_type: &str) -> (r: OtfIO)
        ensures
            r == (OtfIO {  }),
    {
        OtfIO {  }
    }

    /// Reads the manifest store of a font.
    pub fn read_cai(&self, font: FontTable) -> (r: Result<Vec<u8>, Error>)
        ensures
            bytes_result(r) == otf_store(font@),
    {
        let c2pa_table = read_c2pa_from_stream(font)?;
        match c2pa_table.manifest_store {
            Some(manifest_store) => Ok(manifest_store),
            None => {
                let empty: Vec<u8> = Vec::new();
                Ok(empty)
            },
        }
    }

    /// Fonts have no XMP data.
    pub fn read_xmp(&self, _font: &FontTable) -> (r: Option<String>)
        ensures
            r is None,
    {
        None
    }

    /// The 'C2PA' table that a font is written with to hold a manifest store.
    pub fn write_cai(&self, font: FontTable, store_bytes: &[u8]) -> (r: Result<C2paTable, Error>)
        ensures
            table_result(r) == otf_with_store(font@, store_bytes@),
    {
        add_c2pa_to_stream(font, store_bytes)
    }

    /// The 'C2PA' table that a font is written with to refer to a remote manifest.
    pub fn embed_reference_to_stream(&self, font: FontTable, embed_ref: RemoteRefEmbedType) -> (r:
        Result<C2paTable, Error>)
        ensures
            table_result(r) == match embed_ref {
                RemoteRefEmbedType::Xmp(manifest_uri) => otf_with_reference(font@, manifest_uri@),
                _ => Err(Error::UnsupportedType),
            },
    {
        match embed_ref {
            RemoteRefEmbedType::Xmp(manifest_uri) => add_reference_to_stream(
                font,
                manifest_uri.as_str(),
            ),
            RemoteRefEmbedType::StegoS(_) => Err(Error::UnsupportedType),
            RemoteRefEmbedType::StegoB(_) => Err(Error::UnsupportedType),
            RemoteRefEmbedType::Watermark(_) => Err(Error::UnsupportedType),
        }
    }

    /// The types of the fonts that are handled.
    pub fn supported_types(&self) -> (r: Vec<&'static str>)
        ensures
            r@ == otf_types(),
    {
        let types: Vec<&'static str> = vec![
            "application/font-snft",
            "font/otf",
            "font/sfnt",
            "font/otf",
            "otf",
            "sfnt",
            "ttf",
        ];
        proof {
            assert(types@ =~= otf_types());
        }
        types
    }
}

} // verus!
