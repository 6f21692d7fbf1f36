//! Where the manifest store and the XMP of a TIFF file are, and what writing them makes of it.

use vstd::prelude::*;

use vstd::utf8::{encode_utf8, encode_utf8_decode_utf8, valid_utf8};

use crate::asset::{HashBlockObjectType, HashObjectPositions};
use crate::error::Error;
use crate::text::one_of;
use crate::tiff::clone_laws::{holds_values, law_added_tags_are_written};
use crate::tiff::directory::{decoded_offset, IfdType, ImageFileDirectory};
use crate::tiff::format_laws::{
    count_at, first_place, has_directory, is_entry_for, is_header, law_entries_are_read,
    law_files_are_read, law_headers_are_read, law_tags_are_those_of_entries, lowest_first, place_at,
    type_at,
};
use crate::tiff::io::{
    cai_entry, cai_location, cai_of, cai_place, is_reference_base, just, placeholder_store,
    read_types, with_cai, with_tags, with_xmp, written_types, xmp_entry, xmp_of,
};
use crate::tiff::laws::clones;
use crate::tiff::layout::{models, ClonedModel, IfdClonedEntry};
use crate::tiff::map::{parse_tiff, TiffModel};

verus! {

broadcast use crate::endian::group_widths;

/// The entry of the page of a file for a tag is read as its bytes say.
proof fn lemma_entry_of_page(s: Seq<u8>, m: TiffModel, k: int, t: u16)
    requires
        parse_tiff(s) == Ok::<TiffModel, Error>(m),
        is_entry_for(
            s,
            first_place(s, lowest_first(m.byte_order), m.big_tiff),
            k,
            lowest_first(m.byte_order),
            m.big_tiff,
            t,
        ),
    ensures
        ({
            let low = lowest_first(m.byte_order);
            let p = first_place(s, low, m.big_tiff);
            let entry = m.page.entries[t];
            &&& m.page.entries.contains_key(t)
            &&& entry.entry_type == type_at(s, p, k, low, m.big_tiff)
            &&& entry.value_count == count_at(s, p, k, low, m.big_tiff)
            &&& decoded_offset(entry.value_offset, m.byte_order, m.big_tiff) == place_at(
                s,
                p,
                k,
                low,
                m.big_tiff,
            )
        }),
{
    law_files_are_read(s);
    let low = lowest_first(m.byte_order);
    law_headers_are_read(s, low, m.big_tiff);
    let p = first_place(s, low, m.big_tiff);
    law_entries_are_read(s, p, m.byte_order, m.big_tiff, IfdType::Page, k, t);
}

/// The manifest store of a file is where the entry for the tag 0xcd41 says, as many bytes as it
/// counts. The entry has to have the type seven, and the bytes have to be there.
pub proof fn law_stores_are_read(s: Seq<u8>, m: TiffModel, k: int)
    requires
        parse_tiff(s) == Ok::<TiffModel, Error>(m),
        is_entry_for(
            s,
            first_place(s, lowest_first(m.byte_order), m.big_tiff),
            k,
            lowest_first(m.byte_order),
            m.big_tiff,
            0xcd41,
        ),
    ensures
        ({
            let low = lowest_first(m.byte_order);
            let p = first_place(s, low, m.big_tiff);
            let ty = type_at(s, p, k, low, m.big_tiff);
            let n = count_at(s, p, k, low, m.big_tiff);
            let at = place_at(s, p, k, low, m.big_tiff);
            &&& cai_place(m) == at
            &&& if ty != 7 {
                &&& cai_of(s) == Err::<Seq<u8>, Error>(
                    Error::InvalidAsset("Ifd entry for C2PA must be type UNDEFINED(7)"),
                )
                &&& cai_location(s) == Err::<Seq<HashObjectPositions>, Error>(
                    Error::InvalidAsset("Ifd entry for C2PA must be type UNKNOWN(7)"),
                )
            } else {
                &&& at + n <= s.len() ==> cai_of(s) == Ok::<Seq<u8>, Error>(s.subrange(at, at + n))
                &&& at + n > s.len() ==> cai_of(s) == Err::<Seq<u8>, Error>(
                    Error::InvalidAsset("TIFF/DNG out of range"),
                )
                &&& at <= usize::MAX && n <= usize::MAX ==> (cai_location(s) matches Ok(found) && {
                    &&& found.len() == 1
                    &&& found[0].offset == at
                    &&& found[0].length == n
                    &&& found[0].htype == HashBlockObjectType::Cai
                })
                &&& at > usize::MAX || n > usize::MAX ==> cai_location(s) == Err::<
                    Seq<HashObjectPositions>,
                    Error,
                >(Error::InvalidAsset("TIFF/DNG out of range"))
            }
        }),
{
    lemma_entry_of_page(s, m, k, 0xcd41);
}

/// The XMP of a file is where the entry for the tag 700 says, as many bytes as it counts. There is
/// none where the entry has another type than one, or the bytes are not there.
pub proof fn law_xmp_is_read(s: Seq<u8>, m: TiffModel, k: int)
    requires
        parse_tiff(s) == Ok::<TiffModel, Error>(m),
        is_entry_for(
            s,
            first_place(s, lowest_first(m.byte_order), m.big_tiff),
            k,
            lowest_first(m.byte_order),
            m.big_tiff,
            700,
        ),
    ensures
        ({
            let low = lowest_first(m.byte_order);
            let p = first_place(s, low, m.big_tiff);
            let ty = type_at(s, p, k, low, m.big_tiff);
            let n = count_at(s, p, k, low, m.big_tiff);
            let at = place_at(s, p, k, low, m.big_tiff);
            &&& ty == 1 && at + n <= s.len() ==> xmp_of(s) == Some(s.subrange(at, at + n))
            &&& ty != 1 || at + n > s.len() ==> xmp_of(s) is None
        }),
{
    lemma_entry_of_page(s, m, k, 700);
}

/// A file whose page has no entry for them has no manifest store, and no XMP; and nothing is read
/// of what is not a TIFF file.
pub proof fn law_files_without_stores(s: Seq<u8>)
    ensures
        match parse_tiff(s) {
            Ok(m) => {
                let low = lowest_first(m.byte_order);
                let p = first_place(s, low, m.big_tiff);
                &&& (forall|k: int| !#[trigger] is_entry_for(s, p, k, low, m.big_tiff, 0xcd41))
                    ==> cai_of(s) == Err::<Seq<u8>, Error>(Error::JumbfNotFound) && (cai_location(s)
                    matches Ok(found) && found.len() == 0)
                &&& (forall|k: int| !#[trigger] is_entry_for(s, p, k, low, m.big_tiff, 700))
                    ==> xmp_of(s) is None
            },
            Err(err) => {
                &&& cai_of(s) == Err::<Seq<u8>, Error>(err)
                &&& cai_location(s) == Err::<Seq<HashObjectPositions>, Error>(err)
                &&& xmp_of(s) is None
            },
        },
{
    law_files_are_read(s);
    if let Ok(m) = parse_tiff(s) {
        let low = lowest_first(m.byte_order);
        law_headers_are_read(s, low, m.big_tiff);
        let p = first_place(s, low, m.big_tiff);
        law_tags_are_those_of_entries(s, p, m.byte_order, m.big_tiff, IfdType::Page, 0xcd41);
        law_tags_are_those_of_entries(s, p, m.byte_order, m.big_tiff, IfdType::Page, 700);
    }
}

/// A file that a manifest store has been written to has it under the tag 0xcd41 with the type
/// seven, and is a clone of the file with no other tag given to it.
pub proof fn law_stores_are_written(
    s: Seq<u8>,
    low: bool,
    big: bool,
    store: Seq<u8>,
    out: Seq<u8>,
)
    requires
        is_header(s, low, big),
        with_cai(s, store) == Some(out),
        store.len() <= u64::MAX,
    ensures
        is_header(out, low, big),
        has_directory(out, first_place(out, low, big), low, big),
        exists|j: int| #[trigger]
            is_entry_for(out, first_place(out, low, big), j, low, big, 0xcd41) && holds_values(
                out,
                first_place(out, low, big),
                j,
                low,
                big,
                7,
                store.len() as u64,
                store,
            ),
        forall|t: u16| t != 0xcd41 ==> !#[trigger] just(cai_entry(store)).contains_key(t),
        clones(s, just(cai_entry(store)), false, out),
{
    law_added_tags_are_written(s, low, big, just(cai_entry(store)), out, 0xcd41);
}

/// A file that XMP has been written to has it under the tag 700 with the type one, and is a clone
/// of the file with no other tag given to it.
pub proof fn law_xmp_is_written(s: Seq<u8>, low: bool, big: bool, xmp: Seq<u8>, out: Seq<u8>)
    requires
        is_header(s, low, big),
        with_xmp(s, xmp) == Some(out),
        xmp.len() <= u64::MAX,
    ensures
        is_header(out, low, big),
        has_directory(out, first_place(out, low, big), low, big),
        exists|j: int| #[trigger]
            is_entry_for(out, first_place(out, low, big), j, low, big, 700) && holds_values(
                out,
                first_place(out, low, big),
                j,
                low,
                big,
                1,
                xmp.len() as u64,
                xmp,
            ),
        forall|t: u16| t != 700 ==> !#[trigger] just(xmp_entry(xmp)).contains_key(t),
        clones(s, just(xmp_entry(xmp)), false, out),
{
    law_added_tags_are_written(s, low, big, just(xmp_entry(xmp)), out, 700);
}

/// The tags that a clone has been given are under their own numbers, the last given of those with
/// one number.
pub proof fn law_the_last_tag_counts(
    had: Map<u16, ClonedModel>,
    tags: Seq<IfdClonedEntry>,
    more: Seq<IfdClonedEntry>,
    i: int,
)
    requires
        0 <= i < tags.len(),
        forall|j: int| i < j < tags.len() ==> (#[trigger] tags[j]).entry_tag != tags[i].entry_tag,
        forall|j: int|
            0 <= j < more.len() ==> (#[trigger] more[j]).entry_tag != tags[i].entry_tag,
    ensures
        with_tags(had, tags).contains_key(tags[i].entry_tag),
        with_tags(had, tags)[tags[i].entry_tag] == tags[i]@,
        with_tags(had, more).contains_key(tags[i].entry_tag) <==> had.contains_key(
            tags[i].entry_tag,
        ),
        with_tags(had, more)[tags[i].entry_tag] == had[tags[i].entry_tag],
    decreases tags.len() + more.len(),
{
    if more.len() > 0 {
        law_the_last_tag_counts(had, tags, more.drop_last(), i);
        assert(more.last() == more[more.len() - 1]);
    }
    if i < tags.len() - 1 {
        let less = tags.drop_last();
        assert(less[i] == tags[i]);
        law_the_last_tag_counts(had, less, Seq::empty(), i);
        assert(tags.last() == tags[tags.len() - 1]);
    }
}

/// What an entry and a directory hold is in their fields.
pub proof fn law_models_of_entries(
    entry: IfdClonedEntry,
    entries: Map<u16, IfdClonedEntry>,
    t: u16,
    ifd: ImageFileDirectory,
)
    ensures
        entry@.entry_tag == entry.entry_tag,
        entry@.entry_type == entry.entry_type,
        entry@.value_count == entry.value_count,
        entry@.value_bytes == entry.value_bytes@,
        models(entries).contains_key(t) <==> entries.contains_key(t),
        entries.contains_key(t) ==> models(entries)[t] == entries[t]@,
        ifd@.offset == ifd.offset,
        ifd@.entry_cnt == ifd.entry_cnt,
        ifd@.ifd_type == ifd.ifd_type,
        ifd@.entries == ifd.entries@,
        ifd@.next_ifd_offset == ifd.next_ifd_offset,
{
}

/// A reference is put into the XMP of a file. Where the file has none, or none that is text, it is
/// put into the given text.
pub proof fn law_references_are_put_into_xmp(
    s: Seq<u8>,
    min_xmp: Seq<char>,
    text: Seq<char>,
    other: Seq<char>,
)
    requires
        is_reference_base(s, min_xmp, text),
    ensures
        xmp_of(s) is None ==> text == min_xmp,
        xmp_of(s) matches Some(bytes) ==> if valid_utf8(bytes) {
            encode_utf8(text) == bytes
        } else {
            text == min_xmp
        },
        is_reference_base(s, min_xmp, other) ==> other == text,
{
    if is_reference_base(s, min_xmp, other) {
        encode_utf8_decode_utf8(text);
        encode_utf8_decode_utf8(other);
    }
}

/// The store that holds the place of one is ten zeros, which do not fit the value field of an
/// entry: it is found where its entry points to.
pub proof fn law_placeholders_are_pointed_to(i: int)
    ensures
        placeholder_store().len() == 10,
        0 <= i < 10 ==> placeholder_store()[i] == 0,
{
}

/// The types of files that are read are these, and no others; all of them are written but those
/// of cameras.
pub proof fn law_types_are_known(name: Seq<char>)
    ensures
        one_of(name, written_types()) <==> {
            ||| name == "tif"@
            ||| name == "tiff"@
            ||| name == "image/tiff"@
            ||| name == "dng"@
            ||| name == "image/dng"@
            ||| name == "image/x-adobe-dng"@
        },
        one_of(name, read_types()) <==> {
            ||| one_of(name, written_types())
            ||| name == "arw"@
            ||| name == "image/x-sony-arw"@
            ||| name == "nef"@
            ||| name == "image/x-nikon-nef"@
        },
{
    let a = read_types();
    assert(forall|i: int| 0 <= i < a.len() ==> one_of((#[trigger] a[i])@, a));
    assert(a[0]@ == "tif"@ && a[1]@ == "tiff"@ && a[2]@ == "image/tiff"@ && a[3]@ == "dng"@);
    assert(a[4]@ == "image/dng"@ && a[5]@ == "image/x-adobe-dng"@ && a[6]@ == "arw"@);
    assert(a[7]@ == "image/x-sony-arw"@ && a[8]@ == "nef"@ && a[9]@ == "image/x-nikon-nef"@);
    let b = written_types();
    assert(forall|i: int| 0 <= i < b.len() ==> one_of((#[trigger] b[i])@, b));
    assert(b[0]@ == "tif"@ && b[1]@ == "tiff"@ && b[2]@ == "image/tiff"@ && b[3]@ == "dng"@);
    assert(b[4]@ == "image/dng"@ && b[5]@ == "image/x-adobe-dng"@);
}

} // verus!
