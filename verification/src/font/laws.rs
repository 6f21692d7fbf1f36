//! What holds of the 'C2PA' table of a font across its changes.

use vstd::prelude::*;

use crate::asset::{HashBlockObjectType, HashObjectPositions};
use crate::endian::{u16_at, u32_at, Endianness};
use crate::error::Error;
use crate::font::chunks::{boxed, position_of, Chunk};
use crate::font::otf::{
    c2pa_entry, changed, entries_examined, entry_fits, entry_place, is_c2pa_entry, otf_locations,
    otf_reference, otf_store, otf_with_reference, otf_with_store, TableChange, TABLE_ENTRY_SIZE,
};
use crate::font::error::FontError;
use crate::font::sfnt::{
    adds_reference, adds_store, sfnt_reference, sfnt_store, updated, RecordUpdate, TaggedTable,
};
use crate::font::table::{C2paTable, FontModel, TableModel};

verus! {

/// A manifest store that is added to a font reads back from its table as it is, and the reference
/// to the active manifest stays.
pub proof fn law_store_reads_back(font: FontModel, store: Seq<u8>)
    ensures
        match otf_with_store(font, store) {
            Ok(table) => {
                &&& otf_store(FontModel::Present(table)) == Ok::<Seq<u8>, Error>(store)
                &&& otf_reference(FontModel::Present(table)) == otf_reference(font)
            },
            Err(_) => font is NotAFont || font is Unreadable,
        },
{
}

/// A reference that is added to a font reads back from its table as it is, and the manifest store
/// stays.
pub proof fn law_reference_reads_back(font: FontModel, uri: Seq<char>)
    ensures
        match otf_with_reference(font, uri) {
            Ok(table) => {
                &&& otf_reference(FontModel::Present(table)) == Ok::<Option<Seq<char>>, Error>(
                    Some(uri),
                )
                &&& otf_store(font) is Ok ==> otf_store(FontModel::Present(table)) == otf_store(
                    font,
                )
            },
            Err(_) => font is NotAFont || font is Unreadable,
        },
{
}

/// It makes no difference which of a reference and a manifest store is added to a font first.
pub proof fn law_additions_commute(font: FontModel, uri: Seq<char>, store: Seq<u8>)
    requires
        font is Absent || font is Present,
    ensures
        otf_with_store(FontModel::Present(otf_with_reference(font, uri)->Ok_0), store)
            == otf_with_reference(FontModel::Present(otf_with_store(font, store)->Ok_0), uri),
{
}

/// Nothing reads back from a font once its 'C2PA' table is removed.
pub proof fn law_removed_table_is_gone(font: FontModel, change: TableChange)
    requires
        changed(font, change) is Absent,
    ensures
        otf_store(changed(font, change)) == Err::<Seq<u8>, Error>(Error::JumbfNotFound),
        otf_reference(changed(font, change)) == Ok::<Option<Seq<char>>, Error>(None),
{
}

/// A manifest store that an update adds to the table of an SFNT font reads back as it is, and the
/// reference to the active manifest stays.
pub proof fn law_updated_store_reads_back(
    before: TableModel,
    update: RecordUpdate,
    store: Seq<u8>,
    after: C2paTable,
)
    requires
        adds_store(update, store),
        after@ == updated(before, update),
    ensures
        sfnt_store(Ok(TaggedTable::C2pa(after))) == Ok::<Seq<u8>, Error>(store),
        sfnt_reference(Ok(TaggedTable::C2pa(after))) == Ok::<Option<Seq<char>>, FontError>(
            before.active_manifest_uri,
        ),
{
}

/// A reference that an update adds to the table of an SFNT font reads back as it is, and the
/// manifest store stays.
pub proof fn law_updated_reference_reads_back(
    before: TableModel,
    update: RecordUpdate,
    uri: Seq<char>,
    after: C2paTable,
)
    requires
        adds_reference(update, uri),
        after@ == updated(before, update),
    ensures
        sfnt_reference(Ok(TaggedTable::C2pa(after))) == Ok::<Option<Seq<char>>, FontError>(
            Some(uri),
        ),
        after@.manifest_store == before.manifest_store,
{
}

/// The parts of a font that are hashed are those that become boxes, and in a container that hashes
/// all of them all do.
pub proof fn law_hashed_parts_are_boxed(chunks: Seq<Chunk>, k: int)
    requires
        0 <= k < chunks.len(),
    ensures
        position_of(chunks[k]).htype == HashBlockObjectType::Other <==> boxed(
            chunks,
            false,
        ).contains(chunks[k]),
        boxed(chunks, true) == chunks,
{
    let keep = |chunk: Chunk| false || chunk.should_hash;
    if chunks[k].should_hash {
        chunks.lemma_filter_contains(keep, k);
    } else if boxed(chunks, false).contains(chunks[k]) {
        let i = choose|i: int|
            0 <= i < boxed(chunks, false).len() && boxed(chunks, false)[i] == chunks[k];
        chunks.lemma_filter_pred(keep, i);
    }
    lemma_all_boxed(chunks);
}

proof fn lemma_all_boxed(chunks: Seq<Chunk>)
    ensures
        boxed(chunks, true) == chunks,
    decreases chunks.len(),
{
    reveal(Seq::filter);
    if chunks.len() > 0 {
        lemma_all_boxed(chunks.drop_last());
        assert(chunks.drop_last().push(chunks.last()) =~= chunks);
    } else {
        assert(boxed(chunks, true) =~= chunks);
    }
}

/// The first entry of the table directory that is that of the 'C2PA' table is the one that is
/// found, with its own range and the range that it gives.
pub proof fn law_first_entry_is_located(source: Seq<u8>, k: int)
    requires
        0 <= k < entries_examined(u16_at(Endianness::Big, source, 4)),
        entry_fits(source, k),
        is_c2pa_entry(source, k),
        forall|j: int| 0 <= j < k ==> !#[trigger] is_c2pa_entry(source, j),
    ensures
        otf_locations(source).len() == 2,
        otf_locations(source)[0] == (HashObjectPositions {
            offset: entry_place(k) as usize,
            length: TABLE_ENTRY_SIZE,
            htype: HashBlockObjectType::Cai,
        }),
        otf_locations(source)[1].offset == u32_at(
            Endianness::Big,
            source,
            entry_place(k) + 8,
        ) as usize,
        otf_locations(source)[1].length == u32_at(
            Endianness::Big,
            source,
            entry_place(k) + 12,
        ) as usize,
{
    lemma_first_entry(source, 0, k, entries_examined(u16_at(Endianness::Big, source, 4)));
}

proof fn lemma_first_entry(source: Seq<u8>, j: int, k: int, count: int)
    requires
        0 <= j <= k < count,
        entry_fits(source, k),
        is_c2pa_entry(source, k),
        forall|i: int| j <= i < k ==> !#[trigger] is_c2pa_entry(source, i),
    ensures
        c2pa_entry(source, j, count) == Some(k),
    decreases k - j,
{
    if j < k {
        lemma_first_entry(source, j + 1, k, count);
        assert(!is_c2pa_entry(source, j));
    }
}

/// Where no entry of the table directory is that of the 'C2PA' table, the one range is all of the
/// font.
pub proof fn law_font_without_entry_is_one_range(source: Seq<u8>)
    requires
        forall|j: int|
            0 <= j < entries_examined(u16_at(Endianness::Big, source, 4)) && entry_fits(source, j)
                ==> !#[trigger] is_c2pa_entry(source, j),
    ensures
        otf_locations(source) == seq![
            HashObjectPositions {
                offset: 0,
                length: source.len() as usize,
                htype: HashBlockObjectType::Cai,
            },
        ],
{
    lemma_no_entry(source, 0, entries_examined(u16_at(Endianness::Big, source, 4)));
}

proof fn lemma_no_entry(source: Seq<u8>, j: int, count: int)
    requires
        0 <= j,
        forall|i: int|
            j <= i < count && entry_fits(source, i) ==> !#[trigger] is_c2pa_entry(source, i),
    ensures
        c2pa_entry(source, j, count) is None,
    decreases count - j,
{
    if j < count && entry_fits(source, j) {
        assert(!is_c2pa_entry(source, j));
        lemma_no_entry(source, j + 1, count);
    }
}

} // verus!
