//! What the font handlers do, said of bytes, of the fields of tables and of the parts of fonts.

use vstd::prelude::*;

use crate::asset::HashBlockObjectType;
use crate::endian::{u16_at, u32_at, Endianness};
use crate::error::Error;
use crate::font::chunks::{box_map_outcome, boxed, position_of, BoxMap, Chunk};
use crate::font::error::FontError;
use crate::font::laws::{law_first_entry_is_located, law_font_without_entry_is_one_range};
use crate::font::otf::{
    changed, entries_examined, entry_fits, has_version, is_c2pa_entry, otf_locations, otf_reference,
    otf_store, otf_table, otf_types, otf_with_reference, otf_with_store, version_tag, FontVersion,
    TableChange,
};
use crate::font::sfnt::{
    reference_update, sfnt_reference, sfnt_store, sfnt_table, updated, FieldUpdate, RecordUpdate,
    TaggedTable,
};
use crate::font::table::{
    bytes_result, table_result, text_of, text_result, C2paTable, FontModel, FontTable, TableModel,
};
use crate::font::thumbnail::{
    font_mime_types, format_of, is_font_extension, rendered_format, ThumbnailFormat,
};
use crate::font::woff::woff_types;
use crate::numbers::{law_integers_are_read, number_of};
use crate::text::one_of;

verus! {

// The start of a font, and its table directory.

/// Whether a font starts with the bytes of a version: of TrueType, or the letters OTTO, typ1 or
/// true.
pub open spec fn starts_as_a_font(s: Seq<u8>) -> bool {
    ||| s[0] == 0 && s[1] == 1 && s[2] == 0 && s[3] == 0
    ||| s[0] == 0x4f && s[1] == 0x54 && s[2] == 0x54 && s[3] == 0x4f
    ||| s[0] == 0x74 && s[1] == 0x79 && s[2] == 0x70 && s[3] == 0x31
    ||| s[0] == 0x74 && s[1] == 0x72 && s[2] == 0x75 && s[3] == 0x65
}

/// The version that a number at the start of a font stands for.
pub open spec fn named_version(v: u32) -> Option<FontVersion> {
    if v == 0x1_0000 {
        Some(FontVersion::TrueType)
    } else if v == 0x4f54_544f {
        Some(FontVersion::OpenType)
    } else if v == 0x7479_7031 {
        Some(FontVersion::Typ1)
    } else if v == 0x7472_7565 {
        Some(FontVersion::AppleTrue)
    } else {
        None
    }
}

/// Each version has its number, and a font is known by the bytes that it starts with.
pub proof fn law_versions_are_known(version: FontVersion, v: u32, s: Seq<u8>)
    ensures
        version_tag(version) == v <==> named_version(v) == Some(version),
        has_version(s) <==> starts_as_a_font(s),
{
    law_integers_are_read(Endianness::Big, s, 0);
    reveal_with_fuel(number_of, 5);
    if starts_as_a_font(s) {
        let n = u32_at(Endianness::Big, s, 0);
        let found = named_version(n as u32)->0;
        assert(n == version_tag(found));
    }
}

/// Whether entry `k` of the table directory of a font is there, and has the letters C2PA.
pub open spec fn names_c2pa(s: Seq<u8>, k: int) -> bool {
    &&& 12 + 16 * k + 16 <= s.len()
    &&& s[12 + 16 * k] == 0x43
    &&& s[12 + 16 * k + 1] == 0x32
    &&& s[12 + 16 * k + 2] == 0x50
    &&& s[12 + 16 * k + 3] == 0x41
}

/// The first entry of the table directory that has the letters C2PA is not hashed, and nor is the
/// table that it gives the place and the length of.
pub proof fn law_c2pa_tables_are_located(s: Seq<u8>, k: int)
    requires
        0 <= k,
        k == 0 || k < number_of(s, 4, 2, false),
        names_c2pa(s, k),
        forall|j: int| 0 <= j < k ==> !#[trigger] names_c2pa(s, j),
        s.len() <= usize::MAX,
    ensures
        otf_locations(s).len() == 2,
        otf_locations(s)[0].offset == 12 + 16 * k,
        otf_locations(s)[0].length == 16,
        otf_locations(s)[0].htype == HashBlockObjectType::Cai,
        otf_locations(s)[1].offset == number_of(s, 12 + 16 * k + 8, 4, false),
        otf_locations(s)[1].length == number_of(s, 12 + 16 * k + 12, 4, false),
        otf_locations(s)[1].htype == HashBlockObjectType::Cai,
{
    law_integers_are_read(Endianness::Big, s, 4);
    crate::endian::lemma_u16_range(Endianness::Big, s, 4);
    law_integers_are_read(Endianness::Big, s, 12 + 16 * k + 8);
    law_integers_are_read(Endianness::Big, s, 12 + 16 * k + 12);
    assert forall|j: int| 0 <= j < k implies !#[trigger] is_c2pa_entry(s, j) by {
        assert(!names_c2pa(s, j));
    }
    law_first_entry_is_located(s, k);
    crate::endian::lemma_u32_range(Endianness::Big, s, 12 + 16 * k + 8);
    crate::endian::lemma_u32_range(Endianness::Big, s, 12 + 16 * k + 12);
}

/// All of a font is left out of hashing where no entry of the table directory has the letters C2PA.
/// One entry is looked at even where the font says that it has no tables.
pub proof fn law_fonts_without_tables_are_one_range(s: Seq<u8>)
    requires
        forall|j: int|
            0 <= j && (j == 0 || j < number_of(s, 4, 2, false)) ==> !#[trigger] names_c2pa(s, j),
        s.len() <= usize::MAX,
    ensures
        otf_locations(s).len() == 1,
        otf_locations(s)[0].offset == 0,
        otf_locations(s)[0].length == s.len(),
        otf_locations(s)[0].htype == HashBlockObjectType::Cai,
{
    law_integers_are_read(Endianness::Big, s, 4);
    crate::endian::lemma_u16_range(Endianness::Big, s, 4);
    assert forall|j: int|
        0 <= j < entries_examined(u16_at(Endianness::Big, s, 4)) && entry_fits(s, j) implies
        !#[trigger] is_c2pa_entry(s, j) by {
        assert(!names_c2pa(s, j));
    }
    law_font_without_entry_is_one_range(s);
}

// The 'C2PA' table.

/// What a table holds is in its fields.
pub proof fn law_models_of_tables(
    table: C2paTable,
    font: FontTable,
    text: Option<String>,
    bytes: Vec<u8>,
    err: Error,
)
    ensures
        table.active_manifest_uri is None <==> table@.active_manifest_uri is None,
        table.active_manifest_uri matches Some(uri) ==> table@.active_manifest_uri == Some(uri@),
        table.manifest_store is None <==> table@.manifest_store is None,
        table.manifest_store matches Some(store) ==> table@.manifest_store == Some(store@),
        font is NotAFont <==> font@ is NotAFont,
        font is Unreadable <==> font@ is Unreadable,
        font is Absent <==> font@ is Absent,
        font matches FontTable::Present(held) ==> font@ == FontModel::Present(held@),
        text is None <==> text_of(text) is None,
        text matches Some(held) ==> text_of(text) == Some(held@),
        table_result(Ok(table)) == Ok::<TableModel, Error>(table@),
        table_result(Err(err)) == Err::<TableModel, Error>(err),
        bytes_result(Ok(bytes)) == Ok::<Seq<u8>, Error>(bytes@),
        bytes_result(Err(err)) == Err::<Seq<u8>, Error>(err),
        text_result(Ok::<Option<String>, Error>(text)) == Ok::<Option<Seq<char>>, Error>(
            text_of(text),
        ),
        text_result(Err::<Option<String>, Error>(err)) == Err::<Option<Seq<char>>, Error>(err),
{
}

/// What is read of an OpenType font is what its table holds. A font without a table, or a table
/// without a reference, has no reference; a table without a store has an empty one.
pub proof fn law_otf_tables_are_read(table: TableModel)
    ensures
        otf_table(FontModel::Present(table)) == Ok::<TableModel, Error>(table),
        otf_reference(FontModel::Present(table)) == Ok::<Option<Seq<char>>, Error>(
            table.active_manifest_uri,
        ),
        table.manifest_store matches Some(store) ==> otf_store(FontModel::Present(table)) == Ok::<
            Seq<u8>,
            Error,
        >(store),
        table.manifest_store is None ==> (otf_store(FontModel::Present(table)) matches Ok(store)
            && store.len() == 0),
        otf_table(FontModel::Absent) == Err::<TableModel, Error>(Error::JumbfNotFound),
        otf_store(FontModel::Absent) == Err::<Seq<u8>, Error>(Error::JumbfNotFound),
        otf_reference(FontModel::Absent) == Ok::<Option<Seq<char>>, Error>(None),
{
}

/// Nothing is read of, or added to, what is not a font or has a table that cannot be read; which
/// of the two it is can be told from the error, but where a reference is read.
pub proof fn law_bad_fonts_are_refused(font: FontModel, store: Seq<u8>, uri: Seq<char>)
    requires
        font is NotAFont || font is Unreadable,
    ensures
        ({
            let err = if font is NotAFont {
                Error::FontLoadError
            } else {
                Error::DeserializationError
            };
            &&& otf_table(font) == Err::<TableModel, Error>(err)
            &&& otf_store(font) == Err::<Seq<u8>, Error>(err)
            &&& otf_with_store(font, store) == Err::<TableModel, Error>(err)
            &&& otf_with_reference(font, uri) == Err::<TableModel, Error>(err)
            &&& otf_reference(font) == Err::<Option<Seq<char>>, Error>(Error::DeserializationError)
        }),
{
}

/// What is added to a font takes the place of what it had, and the rest of its table stays; a font
/// without a table gets one that holds nothing else.
pub proof fn law_one_field_is_changed(font: FontModel, store: Seq<u8>, uri: Seq<char>)
    requires
        font is Absent || font is Present,
    ensures
        otf_with_store(font, store) matches Ok(table) && {
            &&& table.manifest_store == Some(store)
            &&& font matches FontModel::Present(had) ==> table.active_manifest_uri
                == had.active_manifest_uri
            &&& font is Absent ==> table.active_manifest_uri is None
        },
        otf_with_reference(font, uri) matches Ok(table) && {
            &&& table.active_manifest_uri == Some(uri)
            &&& font matches FontModel::Present(had) ==> table.manifest_store == had.manifest_store
            &&& font is Absent ==> table.manifest_store is None
        },
{
}

/// A change of a table leaves the font as it was, without a table, or with the new one.
pub proof fn law_changes_of_tables(font: FontModel, table: C2paTable)
    ensures
        changed(font, TableChange::Keep) == font,
        changed(font, TableChange::Remove) is Absent,
        changed(font, TableChange::Replace(table)) == FontModel::Present(table@),
{
}

/// What is read of an SFNT font is what its table holds. What is missing is told from what is
/// wrong; a font without a table has no reference, which is nothing wrong.
pub proof fn law_sfnt_tables_are_read(table: C2paTable, err: FontError)
    ensures
        sfnt_table(Ok(TaggedTable::C2pa(table))) == Ok::<TableModel, FontError>(table@),
        sfnt_reference(Ok(TaggedTable::C2pa(table))) == Ok::<Option<Seq<char>>, FontError>(
            table@.active_manifest_uri,
        ),
        table.manifest_store matches Some(store) ==> sfnt_store(Ok(TaggedTable::C2pa(table)))
            == Ok::<Seq<u8>, Error>(store@),
        table.manifest_store is None ==> sfnt_store(Ok(TaggedTable::C2pa(table))) == Err::<
            Seq<u8>,
            Error,
        >(Error::JumbfNotFound),
        sfnt_table(Ok(TaggedTable::Absent)) == Err::<TableModel, FontError>(
            FontError::JumbfNotFound,
        ),
        sfnt_reference(Ok(TaggedTable::Absent)) == Ok::<Option<Seq<char>>, FontError>(None),
        sfnt_store(Ok(TaggedTable::Absent)) == Err::<Seq<u8>, Error>(Error::JumbfNotFound),
        sfnt_table(Ok(TaggedTable::Other)) == Err::<TableModel, FontError>(
            FontError::InvalidNamedTable("Non-C2PA table with C2PA tag"),
        ),
        sfnt_table(Err(err)) == Err::<TableModel, FontError>(err),
        err != FontError::JumbfNotFound ==> sfnt_reference(Err(err)) == Err::<
            Option<Seq<char>>,
            FontError,
        >(err) && sfnt_store(Err(err)) == Err::<Seq<u8>, Error>(Error::FontError(err)),
{
}

/// A field of a table that an update keeps stays, one that it clears is empty, and one that it
/// puts a value in has that value; the other field has no part in it.
pub proof fn law_updates_of_tables(table: TableModel, update: RecordUpdate)
    ensures
        ({
            let after = updated(table, update);
            &&& update.active_manifest_uri is Keep ==> after.active_manifest_uri
                == table.active_manifest_uri
            &&& update.active_manifest_uri is Clear ==> after.active_manifest_uri is None
            &&& update.active_manifest_uri matches FieldUpdate::Put(uri)
                ==> after.active_manifest_uri == Some(uri@)
            &&& update.content_credential is Keep ==> after.manifest_store == table.manifest_store
            &&& update.content_credential is Clear ==> after.manifest_store is None
            &&& update.content_credential matches FieldUpdate::Put(store) ==> after.manifest_store
                == Some(store@)
        }),
{
}

/// The update that comes of XMP adds the text of it as the reference, and nothing else. What went
/// wrong with the XMP is passed on.
pub proof fn law_references_are_updated(
    update: RecordUpdate,
    table: TableModel,
    xmp: Seq<char>,
    err: FontError,
    r: Result<RecordUpdate, FontError>,
)
    ensures
        reference_update(Ok(update), Ok(xmp)) ==> updated(table, update) == (TableModel {
            active_manifest_uri: Some(xmp),
            manifest_store: table.manifest_store,
        }),
        reference_update(r, Err(err)) ==> r == Err::<RecordUpdate, FontError>(err),
        !reference_update(Err(err), Ok(xmp)),
{
}

// The parts of a font.

/// The range of a part is that of the part; it is the manifest's where the part is not hashed.
pub proof fn law_parts_have_ranges(chunk: Chunk)
    ensures
        position_of(chunk).offset == chunk.offset,
        position_of(chunk).length == chunk.length,
        chunk.should_hash <==> position_of(chunk).htype == HashBlockObjectType::Other,
        !chunk.should_hash <==> position_of(chunk).htype == HashBlockObjectType::Cai,
{
}

/// Whether a box has the range and the one name of a part, and no hash yet.
pub open spec fn is_of_part(made: BoxMap, chunk: Chunk) -> bool {
    &&& made.range_start == chunk.offset
    &&& made.range_len == chunk.length
    &&& made.names@.len() == 1
    &&& chunk.name matches Ok(name) && made.names@[0]@ == name@
    &&& made.alg is None
    &&& made.hash@.len() == 0
    &&& made.pad@.len() == 0
}

/// One part more makes one box more, the last, if it is hashed or all parts are boxed; it makes no
/// other difference.
pub proof fn law_each_part_makes_its_box(
    chunks: Vec<Chunk>,
    more: Vec<Chunk>,
    last: Chunk,
    all: bool,
    maps: Vec<BoxMap>,
)
    requires
        more@ == chunks@.push(last),
        box_map_outcome(Ok(more), all, Ok(maps)),
    ensures
        all || last.should_hash ==> maps@.len() > 0 && is_of_part(maps@.last(), last),
        forall|fewer: Vec<BoxMap>|
            fewer@ == if all || last.should_hash {
                maps@.drop_last()
            } else {
                maps@
            } ==> #[trigger] box_map_outcome(Ok(chunks), all, Ok(fewer)),
{
    reveal(Seq::filter);
    assert(more@.drop_last() =~= chunks@);
    assert(boxed(more@, all) == if all || last.should_hash {
        boxed(chunks@, all).push(last)
    } else {
        boxed(chunks@, all)
    });
    assert forall|fewer: Vec<BoxMap>|
        fewer@ == if all || last.should_hash {
            maps@.drop_last()
        } else {
            maps@
        } implies #[trigger] box_map_outcome(Ok(chunks), all, Ok(fewer)) by {
        let parts = boxed(chunks@, all);
        assert forall|k: int| 0 <= k < parts.len() implies crate::font::chunks::is_box_of(
            #[trigger] fewer@[k],
            parts[k],
        ) by {
            assert(fewer@[k] == maps@[k]);
            assert(boxed(more@, all)[k] == parts[k]);
        }
    }
}

/// No parts make no boxes.
pub proof fn law_no_parts_make_no_boxes(chunks: Vec<Chunk>, all: bool, r: Result<Vec<BoxMap>, Error>)
    requires
        chunks@.len() == 0,
        box_map_outcome(Ok(chunks), all, r),
    ensures
        r matches Ok(maps) && maps@.len() == 0,
{
    reveal(Seq::filter);
}

/// Boxes are made wherever the parts that make them have names; where one has none, what is wrong
/// with a name is what comes of it, and so is what is wrong with the font.
pub proof fn law_boxes_are_made_of_named_parts(
    chunks: Vec<Chunk>,
    all: bool,
    err: FontError,
    r: Result<Vec<BoxMap>, Error>,
)
    ensures
        box_map_outcome(Ok(chunks), all, r) ==> {
            let named = forall|k: int|
                0 <= k < chunks@.len() && (all || chunks@[k].should_hash) ==> (
                #[trigger] chunks@[k]).name is Ok;
            &&& r is Ok <==> named
            &&& r matches Err(failed) ==> exists|k: int|
                0 <= k < chunks@.len() && (all || chunks@[k].should_hash) && {
                    let part = #[trigger] chunks@[k];
                    part.name matches Err(why) && failed == Error::FontError(why)
                }
        },
        box_map_outcome(Err(err), all, r) ==> r == Err::<Vec<BoxMap>, Error>(
            Error::FontError(err),
        ),
{
    let keep = |chunk: Chunk| all || chunk.should_hash;
    let parts = boxed(chunks@, all);
    if box_map_outcome(Ok(chunks), all, r) {
        match r {
            Ok(maps) => {
                assert forall|k: int|
                    0 <= k < chunks@.len() && (all || chunks@[k].should_hash) implies (
                #[trigger] chunks@[k]).name is Ok by {
                    chunks@.lemma_filter_contains(keep, k);
                    let i = choose|i: int| 0 <= i < parts.len() && parts[i] == chunks@[k];
                    assert(crate::font::chunks::is_box_of(maps@[i], parts[i]));
                }
            },
            Err(failed) => {
                let why = failed->FontError_0;
                let n = choose|n: int|
                    {
                        &&& 0 <= n < parts.len()
                        &&& (#[trigger] parts[n]).name == Err::<String, FontError>(why)
                        &&& forall|k: int| 0 <= k < n ==> (#[trigger] parts[k]).name is Ok
                    };
                chunks@.lemma_filter_pred(keep, n);
                assert(parts.contains(parts[n]));
                chunks@.lemma_filter_contains_rev(keep, parts[n]);
                let k = choose|k: int| 0 <= k < chunks@.len() && chunks@[k] == parts[n];
                assert(chunks@[k].name is Err);
            },
        }
    }
}

// Thumbnails.

/// A thumbnail is in the format that was asked for, where that may be had; PNG may always be.
pub proof fn law_formats_are_chosen(use_svg: Option<bool>, svg_enabled: bool)
    ensures
        rendered_format(use_svg, svg_enabled) matches Ok(format) ==> (format
            == ThumbnailFormat::Svg <==> use_svg == Some(true)),
        rendered_format(use_svg, svg_enabled) is Err <==> use_svg == Some(true) && !svg_enabled,
        rendered_format(use_svg, svg_enabled) matches Err(err) ==> err
            == FontError::SvgFeatureNotEnabled,
{
}

/// The MIME type of each format of a thumbnail stands for that format, and no other text does.
pub proof fn law_formats_are_named(mime_type: Seq<char>)
    ensures
        format_of(mime_type) == Ok::<ThumbnailFormat, Seq<char>>(ThumbnailFormat::Svg) <==> mime_type
            == "image/svg+xml"@,
        format_of(mime_type) == Ok::<ThumbnailFormat, Seq<char>>(ThumbnailFormat::Png) <==> mime_type
            == "image/png"@,
        format_of(mime_type) matches Err(words) ==> words == "Unsupported MIME type: "@ + mime_type,
{
    reveal_strlit("image/svg+xml");
    reveal_strlit("image/png");
    assert("image/svg+xml"@.len() != "image/png"@.len());
}

// Names of kinds of fonts.

/// A letter in lower case.
pub open spec fn lowered(c: char) -> char {
    if 'A' <= c && c <= 'Z' {
        (c as int + 32) as char
    } else {
        c
    }
}

/// The extensions of fonts are "otf" and "ttf", in whatever case.
pub proof fn law_extensions_are_known(ext: Seq<char>)
    ensures
        is_font_extension(ext) <==> {
            let low = ext.map_values(|c: char| lowered(c));
            low == "otf"@ || low == "ttf"@
        },
{
    reveal_strlit("otf");
    reveal_strlit("ttf");
    let low = ext.map_values(|c: char| lowered(c));
    if is_font_extension(ext) {
        assert(low =~= if lowered(ext[0]) == 'o' {
            "otf"@
        } else {
            "ttf"@
        });
    }
    if low == "otf"@ || low == "ttf"@ {
        assert(low.len() == ext.len() && low.len() == 3);
        assert(low[0] == lowered(ext[0]));
        assert(low[1] == lowered(ext[1]));
        assert(low[2] == lowered(ext[2]));
    }
}

/// The kinds of fonts that are handled in each container are these, and no others.
pub proof fn law_kinds_are_known(kind: Seq<char>)
    ensures
        one_of(kind, otf_types()) <==> {
            ||| kind == "application/font-snft"@
            ||| kind == "font/otf"@
            ||| kind == "font/sfnt"@
            ||| kind == "otf"@
            ||| kind == "sfnt"@
            ||| kind == "ttf"@
        },
        one_of(kind, font_mime_types()) <==> {
            ||| kind == "application/font-sfnt"@
            ||| kind == "application/x-font-ttf"@
            ||| kind == "application/x-font-opentype"@
            ||| kind == "application/x-font-truetype"@
            ||| kind == "font/otf"@
            ||| kind == "font/sfnt"@
            ||| kind == "font/ttf"@
            ||| kind == "otf"@
            ||| kind == "sfnt"@
            ||| kind == "ttf"@
        },
        one_of(kind, woff_types()) <==> {
            ||| kind == "application/font-woff"@
            ||| kind == "application/x-font-woff"@
            ||| kind == "font/woff"@
            ||| kind == "woff"@
        },
{
    let a = otf_types();
    assert(forall|i: int| 0 <= i < a.len() ==> one_of((#[trigger] a[i])@, a));
    assert(a[0]@ == "application/font-snft"@ && a[1]@ == "font/otf"@ && a[2]@ == "font/sfnt"@);
    assert(a[4]@ == "otf"@ && a[5]@ == "sfnt"@ && a[6]@ == "ttf"@);
    let b = font_mime_types();
    assert(forall|i: int| 0 <= i < b.len() ==> one_of((#[trigger] b[i])@, b));
    assert(b[0]@ == "application/font-sfnt"@ && b[1]@ == "application/x-font-ttf"@);
    assert(b[2]@ == "application/x-font-opentype"@ && b[3]@ == "application/x-font-truetype"@);
    assert(b[4]@ == "font/otf"@ && b[5]@ == "font/sfnt"@ && b[6]@ == "font/ttf"@);
    assert(b[7]@ == "otf"@ && b[8]@ == "sfnt"@ && b[9]@ == "ttf"@);
    let c = woff_types();
    assert(forall|i: int| 0 <= i < c.len() ==> one_of((#[trigger] c[i])@, c));
    assert(c[0]@ == "application/font-woff"@ && c[1]@ == "application/x-font-woff"@);
    assert(c[2]@ == "font/woff"@ && c[3]@ == "woff"@);
}

} // verus!
