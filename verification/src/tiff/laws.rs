//! What holds of the TIFF handlers together.

use vstd::prelude::*;

use crate::asset::HashBlockObjectType;
use crate::endian::Endianness;
use crate::error::Error;
use crate::tiff::children::{before_child, child_stored, lemma_child_in_clone};
use crate::tiff::directory::{
    decoded_offset, ifd_at, ifd_fits, offset_width, order_mark, parse_header, word_at, IFDEntryType,
    IfdEntry, IfdModel, IfdType, C2PA_TAG, EXIFIFD_TAG, GPSIFD_TAG, STRIPOFFSETS, SUBFILE_TAG,
    TILEOFFSETS, XMP_TAG,
};
use crate::tiff::io::{
    cai_entry, cai_location, cai_of, cai_place, clone_with, clone_without_cai, just, with_cai,
    with_xmp, xmp_entry, xmp_of,
};
use crate::tiff::layout::{
    blank_header, cloned_children, cloned_entries, cloned_image, cloned_tiff, cloned_value,
    counts_tag, header_slot, offsets_tag, patched, ClonedModel,
};
use crate::tiff::lemmas::{
    agree, all_apart, apart, field_of, holds_value, lemma_cloned_children, lemma_cloned_image,
    lemma_ifd_agree, stores,
};
use crate::tiff::map::{parse_tiff, TiffModel};
use crate::tiff::removal::lemma_clones_without;
use crate::tiff::reread::{
    before_page, child_places, finds_subfiles, is_child_tag, lemma_added_value, lemma_child_places,
    lemma_children_in_clone, lemma_clone_page, lemma_clone_parses, lemma_clone_tags, lemma_finds,
    lemma_page_of_clone, no_children, page_place, page_tags,
};
use crate::tiff::values::{
    chunk_of, has_just, lemma_chunk_kept, lemma_cloned_len, lemma_field_offset,
    lemma_value_reads_back, reads_back,
};

verus! {

broadcast use crate::endian::group_widths;

/// The page of a clone has the added tags, and the source's others.
pub proof fn lemma_page_has(
    s: Seq<u8>,
    page: Map<u16, IfdEntry>,
    children: Seq<IfdModel>,
    added: Map<u16, ClonedModel>,
    e: Endianness,
    big: bool,
    t: u16,
)
    requires
        cloned_tiff(blank_header(e, big), s, page, children, added, e, big) is Some,
        t != SUBFILE_TAG && t != EXIFIFD_TAG && t != GPSIFD_TAG,
    ensures
        ({
            let tags = page_tags(s, page, children, added, e, big);
            &&& tags.contains_key(t) <==> page.contains_key(t) || added.contains_key(t)
            &&& added.contains_key(t) ==> tags[t] == added[t]
            &&& page.contains_key(t) && !added.contains_key(t) && t != STRIPOFFSETS && t
                != TILEOFFSETS ==> tags[t] == cloned_entries(s, page, e, big)[t]
        }),
{
    let h = blank_header(e, big);
    let (wc, places) = cloned_children(h, s, children, e, big)->0;
    let cloned = cloned_entries(s, page, e, big);
    lemma_cloned_image(wc, s, cloned, e);
    let (wi, image) = cloned_image(wc, s, cloned, e)->Ok_0;
    let base = image.union_prefer_right(added);
    lemma_child_places(base, children, places, e, big);
    let tags = page_tags(s, page, children, added, e, big);
    assert(image.dom().contains(t) <==> cloned.dom().contains(t));
    assert(tags.dom().contains(t) <==> base.dom().contains(t));
    assert(cloned.contains_key(t) <==> page.contains_key(t));
}

/// An added tag whose value does not fit its entry is read back.
proof fn lemma_added_reads_back(
    s: Seq<u8>,
    m: TiffModel,
    added: Map<u16, ClonedModel>,
    out: Seq<u8>,
    t: u16,
)
    requires
        parse_tiff(s) == Ok::<TiffModel, Error>(m),
        no_children(added),
        added.contains_key(t),
        clone_with(s, added) == Some(out),
        added[t].value_bytes.len() > offset_width(m.big_tiff),
    ensures
        finds_subfiles(m, out) ==> parse_tiff(out) is Ok,
        parse_tiff(out) matches Ok(m2) ==> {
            let entry = m2.page.entries[t];
            let at = decoded_offset(entry.value_offset, m2.byte_order, m2.big_tiff);
            &&& m2.page.entries.contains_key(t)
            &&& entry.entry_type == added[t].entry_type
            &&& entry.value_count == added[t].value_count
            &&& 0 <= at
            &&& at + added[t].value_bytes.len() <= out.len()
            &&& out.subrange(at, at + added[t].value_bytes.len()) == added[t].value_bytes
        },
{
    let e = m.byte_order;
    let big = m.big_tiff;
    let page = m.page.entries;
    lemma_clone_parses(s, m, page, added, out);
    lemma_clone_page(s, page, m.children, added, e, big);
    lemma_page_has(s, page, m.children, added, e, big, t);
    let place = page_place(s, page, m.children, added, e, big);
    let tags = page_tags(s, page, m.children, added, e, big);
    let entries = ifd_at(out, place, e, big, IfdType::Page).entries;
    assert(tags.contains_key(t));
    assert(entries.dom().contains(t));
    lemma_field_offset(entries[t], e, big);
}

/// What is written as the manifest store of a file is what is read of the clone, where the store
/// does not fit the value field of its entry and the clone's directories can be read. They can
/// be, but for files of the BigTIFF layout with subfile directories; there they can where there is
/// one, in a little-endian file of at most 4 GiB.
pub proof fn law_store_reads_back(s: Seq<u8>, store: Seq<u8>, m: TiffModel, out: Seq<u8>)
    requires
        parse_tiff(s) == Ok::<TiffModel, Error>(m),
        with_cai(s, store) == Some(out),
        offset_width(m.big_tiff) < store.len() <= u64::MAX,
    ensures
        parse_tiff(out) is Ok ==> cai_of(out) == Ok::<Seq<u8>, Error>(store),
        finds_subfiles(m, out) ==> cai_of(out) == Ok::<Seq<u8>, Error>(store),
{
    let added = just(cai_entry(store));
    lemma_added_reads_back(s, m, added, out, C2PA_TAG);
}

/// What is written as the XMP of a file is what is read of the clone, where the XMP does not fit
/// the value field of its entry and the clone's directories can be read, as for manifest stores.
pub proof fn law_xmp_reads_back(s: Seq<u8>, xmp: Seq<u8>, m: TiffModel, out: Seq<u8>)
    requires
        parse_tiff(s) == Ok::<TiffModel, Error>(m),
        with_xmp(s, xmp) == Some(out),
        offset_width(m.big_tiff) < xmp.len() <= u64::MAX,
    ensures
        parse_tiff(out) is Ok ==> xmp_of(out) == Some(xmp),
        finds_subfiles(m, out) ==> xmp_of(out) == Some(xmp),
{
    let added = just(xmp_entry(xmp));
    lemma_added_reads_back(s, m, added, out, XMP_TAG);
}

/// A clone with a manifest store has it where its location is given.
pub proof fn law_store_is_located(s: Seq<u8>, store: Seq<u8>, m: TiffModel, out: Seq<u8>)
    requires
        parse_tiff(s) == Ok::<TiffModel, Error>(m),
        with_cai(s, store) == Some(out),
        offset_width(m.big_tiff) < store.len() <= u64::MAX,
        parse_tiff(out) is Ok,
        out.len() <= usize::MAX,
    ensures
        cai_location(out) matches Ok(positions) && positions.len() == 1 && {
            let at = positions[0].offset as int;
            &&& positions[0].htype == HashBlockObjectType::Cai
            &&& positions[0].length == store.len()
            &&& at + store.len() <= out.len()
            &&& out.subrange(at, at + store.len()) == store
        },
{
    let added = just(cai_entry(store));
    lemma_added_reads_back(s, m, added, out, C2PA_TAG);
}

/// The header depends on the first bytes alone.
proof fn lemma_header_agree(a: Seq<u8>, b: Seq<u8>, big: bool)
    requires
        a.len() == b.len(),
        agree(a, b, 0, header_slot(big) + offset_width(big)),
        parse_header(a) matches Ok(h) && h.big_tiff == big,
    ensures
        parse_header(b) == parse_header(a),
{
    assert(a[0] == b[0]);
    assert(a[1] == b[1]);
    let e = order_mark(a)->0;
    crate::endian::lemma_u16_agree(e, a, 2, b, 2);
    if big {
        crate::endian::lemma_u16_agree(e, a, 4, b, 4);
        crate::endian::lemma_u16_agree(e, a, 6, b, 6);
        crate::endian::lemma_u64_agree(e, a, 8, b, 8);
    } else {
        crate::endian::lemma_u32_agree(e, a, 4, b, 4);
    }
}

/// A value of a directory that is overwritten by one of the same length is replaced, and the
/// others stay.
proof fn lemma_stores_patched(
    entries: Map<u16, IfdEntry>,
    m: Map<u16, ClonedModel>,
    s: Seq<u8>,
    lo: int,
    hi: int,
    t: u16,
    v: Seq<u8>,
    e: Endianness,
    big: bool,
)
    requires
        stores(entries, m, s, lo, hi, e, big),
        all_apart(entries, m, e, big),
        0 <= lo,
        m.contains_key(t),
        m[t].value_bytes.len() == v.len(),
        v.len() > offset_width(big),
    ensures
        stores(
            entries,
            m.insert(t, ClonedModel { value_bytes: v, ..m[t] }),
            patched(s, decoded_offset(entries[t].value_offset, e, big), v),
            lo,
            hi,
            e,
            big,
        ),
{
    let o = decoded_offset(entries[t].value_offset, e, big);
    lemma_field_offset(entries[t], e, big);
    let b = patched(s, o, v);
    let m2 = m.insert(t, ClonedModel { value_bytes: v, ..m[t] });
    assert(holds_value(s, lo, hi, m[t], field_of(entries[t], big), e, big));
    assert(b.len() == s.len());
    assert(entries.dom() =~= m2.dom());
    assert forall|u: u16| #[trigger] m2.contains_key(u) implies {
        &&& entries[u].entry_tag == u
        &&& entries[u].entry_type == m2[u].entry_type
        &&& entries[u].value_count == m2[u].value_count
        &&& holds_value(b, lo, hi, m2[u], field_of(entries[u], big), e, big)
    } by {
        assert(m.contains_key(u));
        if u == t {
            assert(b.subrange(o, o + v.len()) =~= v);
        } else {
            let x = m[u].value_bytes;
            if x.len() > offset_width(big) {
                let q = word_at(e, field_of(entries[u], big), 0, big);
                assert(apart(
                    m[t],
                    field_of(entries[t], big),
                    m[u],
                    field_of(entries[u], big),
                    e,
                    big,
                ));
                assert(b.subrange(q, q + x.len()) =~= s.subrange(q, q + x.len()));
            }
        }
    }
}

/// A manifest store of the same length that is written over the one of a clone is what is read
/// of the clone from there on.
#[verifier::spinoff_prover]
#[verifier::rlimit(60)]
pub proof fn law_patched_store_reads_back(
    s: Seq<u8>,
    store: Seq<u8>,
    m: TiffModel,
    out: Seq<u8>,
    next: Seq<u8>,
)
    requires
        parse_tiff(s) == Ok::<TiffModel, Error>(m),
        with_cai(s, store) == Some(out),
        offset_width(m.big_tiff) < store.len() <= u64::MAX,
        finds_subfiles(m, out),
        next.len() == store.len(),
    ensures
        parse_tiff(out) matches Ok(m2) && cai_of(patched(out, cai_place(m2), next)) == Ok::<
            Seq<u8>,
            Error,
        >(next),
{
    let e = m.byte_order;
    let big = m.big_tiff;
    let page = m.page.entries;
    let added = just(cai_entry(store));
    lemma_clone_parses(s, m, page, added, out);
    lemma_clone_page(s, page, m.children, added, e, big);
    lemma_children_in_clone(s, page, m.children, added, e, big);
    lemma_page_has(s, page, m.children, added, e, big, C2PA_TAG);
    let place = page_place(s, page, m.children, added, e, big);
    let tags = page_tags(s, page, m.children, added, e, big);
    let lo = before_page(s, page, m.children, added, e, big).len() as int;
    let read = ifd_at(out, place, e, big, IfdType::Page);
    let entries = read.entries;
    assert(entries.dom().contains(C2PA_TAG));
    let m2 = parse_tiff(out)->Ok_0;
    let o = cai_place(m2);
    lemma_field_offset(entries[C2PA_TAG], e, big);
    assert(holds_value(
        out,
        lo,
        place,
        tags[C2PA_TAG],
        field_of(entries[C2PA_TAG], big),
        e,
        big,
    ));
    let b = patched(out, o, next);
    assert(b.len() == out.len());
    let tags2 = tags.insert(C2PA_TAG, ClonedModel { value_bytes: next, ..tags[C2PA_TAG] });
    lemma_stores_patched(entries, tags, out, lo, place, C2PA_TAG, next, e, big);
    let hl = header_slot(big) + offset_width(big);
    assert(agree(out, b, 0, lo));
    lemma_header_agree(out, b, big);
    assert(agree(out, b, place, out.len() as int));
    lemma_ifd_agree(out, b, place, e, big, IfdType::Page);
    let (wc, places) = cloned_children(blank_header(e, big), s, m.children, e, big)->0;
    assert forall|i: int| 0 <= i < places.len() implies ifd_fits(b, #[trigger] places[i], e, big) by {
        lemma_ifd_agree(out, b, places[i], e, big, IfdType::Subfile);
    }
    lemma_finds(s, m, page, added, out, b, entries, tags2, lo, place);
    assert(place as u64 == place);
    assert(parse_tiff(b) is Ok);
    assert(holds_value(
        b,
        lo,
        place,
        tags2[C2PA_TAG],
        field_of(entries[C2PA_TAG], big),
        e,
        big,
    ));
}

/// Whether `out` is a clone of a file: one with the tags `added`, or one with the manifest store
/// removed.
pub open spec fn clones(
    s: Seq<u8>,
    added: Map<u16, ClonedModel>,
    removed: bool,
    out: Seq<u8>,
) -> bool {
    if removed {
        added == Map::<u16, ClonedModel>::empty() && clone_without_cai(s) == Some(out)
    } else {
        clone_with(s, added) == Some(out)
    }
}

/// The entries of the page that are cloned.
pub open spec fn page_cloned(m: TiffModel, removed: bool) -> Map<u16, IfdEntry> {
    if removed {
        m.page.entries.remove(C2PA_TAG)
    } else {
        m.page.entries
    }
}

/// Whether cloning does not adjust the value of the tag `t`: it is neither offsets of image data
/// nor where other directories are.
pub open spec fn is_kept(t: u16) -> bool {
    t != STRIPOFFSETS && t != TILEOFFSETS && !is_child_tag(t)
}

/// A tag that cloning neither replaces nor adjusts keeps its type and its value.
pub proof fn law_other_values_are_kept(
    s: Seq<u8>,
    m: TiffModel,
    added: Map<u16, ClonedModel>,
    removed: bool,
    out: Seq<u8>,
    t: u16,
)
    requires
        parse_tiff(s) == Ok::<TiffModel, Error>(m),
        clones(s, added, removed, out),
        m.page.entries.contains_key(t),
        !added.contains_key(t),
        removed ==> t != C2PA_TAG,
        is_kept(t),
        reads_back(m.page.entries[t], m.big_tiff),
    ensures
        parse_tiff(out) matches Ok(m2) ==> {
            &&& m2.page.entries.contains_key(t)
            &&& m2.page.entries[t].entry_type == m.page.entries[t].entry_type
            &&& m2.page.entries[t].value_count == m.page.entries[t].value_count
            &&& cloned_value(out, m2.page.entries[t], m2.byte_order, m2.big_tiff) == cloned_value(
                s,
                m.page.entries[t],
                m.byte_order,
                m.big_tiff,
            )
        },
{
    let e = m.byte_order;
    let big = m.big_tiff;
    let page = page_cloned(m, removed);
    lemma_page_of_clone(s, page, m.children, added, e, big, out);
    lemma_clone_page(s, page, m.children, added, e, big);
    lemma_page_has(s, page, m.children, added, e, big, t);
    let place = page_place(s, page, m.children, added, e, big);
    let tags = page_tags(s, page, m.children, added, e, big);
    let lo = before_page(s, page, m.children, added, e, big).len() as int;
    let entries = ifd_at(out, place, e, big, IfdType::Page).entries;
    assert(entries.dom().contains(t));
    assert(cloned_value(s, page[t], e, big) is Ok);
    let ty = choose|x: IFDEntryType| #[trigger] x.code() == page[t].entry_type;
    assert(ty.code() == page[t].entry_type);
    lemma_cloned_len(s, page[t], ty, e, big);
    lemma_value_reads_back(out, entries, tags, lo, place, t, ty, e, big);
}

/// A clone has the layout of its source. Its page is the last directory, and has just the source's
/// tags, but for the manifest store where that is removed, and the added ones. These have their
/// own types, counts and values, whatever the source had, but where directories of the source
/// hang off them; the others keep their types and counts and, unless cloning adjusts them, their
/// values.
#[verifier::spinoff_prover]
#[verifier::rlimit(30)]
pub proof fn law_tags_of_a_clone(
    s: Seq<u8>,
    m: TiffModel,
    added: Map<u16, ClonedModel>,
    removed: bool,
    out: Seq<u8>,
)
    requires
        parse_tiff(s) == Ok::<TiffModel, Error>(m),
        clones(s, added, removed, out),
    ensures
        no_children(added) && finds_subfiles(m, out) ==> parse_tiff(out) is Ok,
        parse_tiff(out) matches Ok(m2) ==> {
            let before = page_cloned(m, removed);
            let after = m2.page.entries;
            let e = m.byte_order;
            let big = m.big_tiff;
            &&& m2.byte_order == e
            &&& m2.big_tiff == big
            &&& m2.page.next_ifd_offset is None
            &&& after.dom() == before.dom().union(added.dom())
            &&& forall|t: u16| #[trigger]
                added.contains_key(t) ==> {
                    &&& after[t].entry_type == added[t].entry_type
                    &&& after[t].value_count == added[t].value_count
                    &&& !(is_child_tag(t) && before.contains_key(t)) ==> holds_value(
                        out,
                        0,
                        out.len() as int,
                        added[t],
                        field_of(after[t], big),
                        e,
                        big,
                    )
                }
            &&& forall|t: u16| #[trigger]
                before.contains_key(t) && !added.contains_key(t) ==> {
                    &&& after[t].entry_type == before[t].entry_type
                    &&& after[t].value_count == before[t].value_count
                    &&& is_kept(t) && reads_back(before[t], big) ==> cloned_value(
                        out,
                        after[t],
                        e,
                        big,
                    ) == cloned_value(s, before[t], e, big)
                }
        },
{
    let e = m.byte_order;
    let big = m.big_tiff;
    let page = page_cloned(m, removed);
    if no_children(added) && finds_subfiles(m, out) {
        lemma_clone_parses(s, m, page, added, out);
    }
    lemma_page_of_clone(s, page, m.children, added, e, big, out);
    lemma_clone_page(s, page, m.children, added, e, big);
    lemma_clone_tags(s, page, m.children, added, e, big);
    let place = page_place(s, page, m.children, added, e, big);
    let tags = page_tags(s, page, m.children, added, e, big);
    let after = ifd_at(out, place, e, big, IfdType::Page).entries;
    assert forall|t: u16| #[trigger] added.contains_key(t) implies {
        &&& after[t].entry_type == added[t].entry_type
        &&& after[t].value_count == added[t].value_count
        &&& !(is_child_tag(t) && page.contains_key(t)) ==> holds_value(
            out,
            0,
            out.len() as int,
            added[t],
            field_of(after[t], big),
            e,
            big,
        )
    } by {
        assert(tags.dom().contains(t));
        assert(tags.contains_key(t));
        if !(is_child_tag(t) && page.contains_key(t)) {
            lemma_added_value(s, m, page, added, t);
        }
    }
    assert forall|t: u16| #[trigger]
        page.contains_key(t) && !added.contains_key(t) && parse_tiff(out) is Ok implies {
        &&& after[t].entry_type == page[t].entry_type
        &&& after[t].value_count == page[t].value_count
        &&& is_kept(t) && reads_back(page[t], big) ==> cloned_value(out, after[t], e, big)
            == cloned_value(s, page[t], e, big)
    } by {
        assert(tags.dom().contains(t));
        assert(tags.contains_key(t));
        if is_kept(t) && reads_back(page[t], big) {
            law_other_values_are_kept(s, m, added, removed, out, t);
        }
    }
}

/// The manifest store of a file can be removed wherever one could be written to it, whether or not
/// the file has one.
pub proof fn law_removal_succeeds_where_writing_does(s: Seq<u8>, store: Seq<u8>)
    requires
        with_cai(s, store) is Some,
    ensures
        clone_without_cai(s) is Some,
{
    let m = parse_tiff(s)->Ok_0;
    lemma_clones_without(
        s,
        m.page.entries,
        m.children,
        cai_entry(store),
        m.byte_order,
        m.big_tiff,
    );
}

/// A clone without a manifest store has none, and its page has just the other tags of the source.
pub proof fn law_removed_store_is_gone(s: Seq<u8>, m: TiffModel, out: Seq<u8>)
    requires
        parse_tiff(s) == Ok::<TiffModel, Error>(m),
        clone_without_cai(s) == Some(out),
    ensures
        finds_subfiles(m, out) ==> parse_tiff(out) is Ok,
        parse_tiff(out) matches Ok(m2) ==> {
            &&& m2.page.entries.dom() == m.page.entries.dom().remove(C2PA_TAG)
            &&& cai_of(out) == Err::<Seq<u8>, Error>(Error::JumbfNotFound)
        },
{
    law_tags_of_a_clone(s, m, Map::empty(), true, out);
    if let Ok(m2) = parse_tiff(out) {
        assert(m2.page.entries.dom() =~= m.page.entries.dom().remove(C2PA_TAG));
        assert(!m2.page.entries.dom().contains(C2PA_TAG));
    }
}

/// Removing the manifest store a second time changes no tag: the page keeps its tags, with their
/// types and counts and, unless cloning adjusts them, their values.
pub proof fn law_second_removal_changes_no_tag(
    s: Seq<u8>,
    once: Seq<u8>,
    m: TiffModel,
    twice: Seq<u8>,
)
    requires
        clone_without_cai(s) == Some(once),
        parse_tiff(once) == Ok::<TiffModel, Error>(m),
        clone_without_cai(once) == Some(twice),
    ensures
        finds_subfiles(m, twice) ==> parse_tiff(twice) is Ok,
        parse_tiff(twice) matches Ok(m2) ==> {
            let before = m.page.entries;
            let after = m2.page.entries;
            &&& after.dom() == before.dom()
            &&& forall|t: u16| #[trigger]
                before.contains_key(t) ==> {
                    &&& after[t].entry_type == before[t].entry_type
                    &&& after[t].value_count == before[t].value_count
                    &&& is_kept(t) && reads_back(before[t], m.big_tiff) ==> cloned_value(
                        twice,
                        after[t],
                        m.byte_order,
                        m.big_tiff,
                    ) == cloned_value(once, before[t], m.byte_order, m.big_tiff)
                }
        },
{
    law_removed_store_is_gone(s, parse_tiff(s)->Ok_0, once);
    law_tags_of_a_clone(once, m, Map::empty(), true, twice);
    assert(!m.page.entries.dom().contains(C2PA_TAG));
    assert(page_cloned(m, true) =~= m.page.entries);
    if let Ok(m2) = parse_tiff(twice) {
        assert(m2.page.entries.dom() =~= m.page.entries.dom());
    }
}

/// The tags that describe the image of the page of a clone, and the image data itself, are as
/// they were written.
proof fn lemma_page_image(
    s: Seq<u8>,
    page: Map<u16, IfdEntry>,
    children: Seq<IfdModel>,
    added: Map<u16, ClonedModel>,
    out: Seq<u8>,
    t: u16,
    e: Endianness,
    big: bool,
)
    requires
        cloned_tiff(blank_header(e, big), s, page, children, added, e, big) == Some(out),
        page.contains_key(t) && !added.contains_key(t),
        t != SUBFILE_TAG && t != EXIFIFD_TAG && t != GPSIFD_TAG,
    ensures
        ({
            let (wc, places) = cloned_children(blank_header(e, big), s, children, e, big)->0;
            let cloned = cloned_entries(s, page, e, big);
            let (wi, image) = cloned_image(wc, s, cloned, e)->Ok_0;
            let tags = page_tags(s, page, children, added, e, big);
            &&& cloned_image(wc, s, cloned, e) is Ok
            &&& tags.contains_key(t)
            &&& tags[t] == image[t]
            &&& wi.len() <= out.len()
            &&& agree(wi, out, wc.len() as int, wi.len() as int)
        }),
{
    let h = blank_header(e, big);
    lemma_clone_page(s, page, children, added, e, big);
    let (wc, places) = cloned_children(h, s, children, e, big)->0;
    lemma_cloned_children(h, s, children, e, big);
    let cloned = cloned_entries(s, page, e, big);
    lemma_cloned_image(wc, s, cloned, e);
    let (wi, image) = cloned_image(wc, s, cloned, e)->Ok_0;
    let base = image.union_prefer_right(added);
    lemma_child_places(base, children, places, e, big);
    let tags = page_tags(s, page, children, added, e, big);
    assert(cloned.dom().contains(t));
    assert(image.dom().contains(t));
    assert(base.dom().contains(t));
    assert(tags.dom().contains(t));
}

/// The image data that the page of a file describes is in the clone, where the clone's page says
/// it is.
#[verifier::spinoff_prover]
#[verifier::rlimit(30)]
pub proof fn law_image_data_is_kept(
    s: Seq<u8>,
    m: TiffModel,
    added: Map<u16, ClonedModel>,
    removed: bool,
    out: Seq<u8>,
    tiled: bool,
    i: int,
)
    requires
        parse_tiff(s) == Ok::<TiffModel, Error>(m),
        clones(s, added, removed, out),
        has_just(m.page.entries, tiled),
        !added.contains_key(counts_tag(tiled)),
        !added.contains_key(offsets_tag(tiled)),
        reads_back(m.page.entries[counts_tag(tiled)], m.big_tiff),
        reads_back(m.page.entries[offsets_tag(tiled)], m.big_tiff),
        0 <= i < m.page.entries[counts_tag(tiled)].value_count,
    ensures
        chunk_of(s, m.page.entries, tiled, i, m.byte_order, m.big_tiff) is Some,
        parse_tiff(out) matches Ok(m2) ==> chunk_of(
            out,
            m2.page.entries,
            tiled,
            i,
            m2.byte_order,
            m2.big_tiff,
        ) == chunk_of(s, m.page.entries, tiled, i, m.byte_order, m.big_tiff),
{
    let e = m.byte_order;
    let big = m.big_tiff;
    let page = page_cloned(m, removed);
    lemma_page_of_clone(s, page, m.children, added, e, big, out);
    lemma_clone_page(s, page, m.children, added, e, big);
    lemma_page_image(s, page, m.children, added, out, counts_tag(tiled), e, big);
    lemma_page_image(s, page, m.children, added, out, offsets_tag(tiled), e, big);
    let (wc, places) = cloned_children(blank_header(e, big), s, m.children, e, big)->0;
    let place = page_place(s, page, m.children, added, e, big);
    let tags = page_tags(s, page, m.children, added, e, big);
    let lo = before_page(s, page, m.children, added, e, big).len() as int;
    let entries = ifd_at(out, place, e, big, IfdType::Page).entries;
    lemma_chunk_kept(s, page, wc, out, entries, tags, lo, place, tiled, i, e, big);
}

/// The directories that hang off the page of a file hang off the page of the clone in the same
/// order, and their tags that cloning does not adjust keep their types and their values.
pub proof fn law_child_values_are_kept(
    s: Seq<u8>,
    m: TiffModel,
    added: Map<u16, ClonedModel>,
    removed: bool,
    out: Seq<u8>,
    i: int,
    t: u16,
)
    requires
        parse_tiff(s) == Ok::<TiffModel, Error>(m),
        no_children(added),
        clones(s, added, removed, out),
        finds_subfiles(m, out),
        0 <= i < m.children.len(),
        m.children[i].entries.contains_key(t),
        t != STRIPOFFSETS && t != TILEOFFSETS,
        reads_back(m.children[i].entries[t], m.big_tiff),
    ensures
        parse_tiff(out) matches Ok(m2) && {
            let before = m.children[i].entries[t];
            let after = m2.children[i].entries[t];
            &&& m2.children.len() == m.children.len()
            &&& m2.children[i].ifd_type == m.children[i].ifd_type
            &&& m2.children[i].entries.contains_key(t)
            &&& after.entry_type == before.entry_type
            &&& after.value_count == before.value_count
            &&& cloned_value(out, after, m2.byte_order, m2.big_tiff) == cloned_value(
                s,
                before,
                m.byte_order,
                m.big_tiff,
            )
        },
{
    let e = m.byte_order;
    let big = m.big_tiff;
    let from = m.children[i].entries;
    lemma_clone_parses(s, m, page_cloned(m, removed), added, out);
    lemma_child_in_clone(s, m, page_cloned(m, removed), added, out, i);
    reveal(child_stored);
    let w = before_child(s, m, i);
    let (wi, tags) = cloned_image(w, s, cloned_entries(s, from, e, big), e)->Ok_0;
    lemma_cloned_image(w, s, cloned_entries(s, from, e, big), e);
    let at = child_places(s, m)[i];
    let entries = ifd_at(out, at, e, big, m.children[i].ifd_type).entries;
    assert(cloned_entries(s, from, e, big).dom().contains(t));
    assert(tags.contains_key(t));
    assert(entries.dom().contains(t));
    assert(cloned_value(s, from[t], e, big) is Ok);
    let ty = choose|x: IFDEntryType| #[trigger] x.code() == from[t].entry_type;
    assert(ty.code() == from[t].entry_type);
    lemma_cloned_len(s, from[t], ty, e, big);
    lemma_value_reads_back(out, entries, tags, wi.len() as int, at, t, ty, e, big);
}

/// The image data that a directory that hangs off the page of a file describes is in the clone,
/// where the directory of the clone says it is.
pub proof fn law_child_image_data_is_kept(
    s: Seq<u8>,
    m: TiffModel,
    added: Map<u16, ClonedModel>,
    removed: bool,
    out: Seq<u8>,
    child: int,
    tiled: bool,
    i: int,
)
    requires
        parse_tiff(s) == Ok::<TiffModel, Error>(m),
        no_children(added),
        clones(s, added, removed, out),
        finds_subfiles(m, out),
        0 <= child < m.children.len(),
        has_just(m.children[child].entries, tiled),
        reads_back(m.children[child].entries[counts_tag(tiled)], m.big_tiff),
        reads_back(m.children[child].entries[offsets_tag(tiled)], m.big_tiff),
        0 <= i < m.children[child].entries[counts_tag(tiled)].value_count,
    ensures
        chunk_of(s, m.children[child].entries, tiled, i, m.byte_order, m.big_tiff) is Some,
        parse_tiff(out) matches Ok(m2) && chunk_of(
            out,
            m2.children[child].entries,
            tiled,
            i,
            m2.byte_order,
            m2.big_tiff,
        ) == chunk_of(s, m.children[child].entries, tiled, i, m.byte_order, m.big_tiff),
{
    let e = m.byte_order;
    let big = m.big_tiff;
    let from = m.children[child].entries;
    let ct = counts_tag(tiled);
    let ot = offsets_tag(tiled);
    lemma_clone_parses(s, m, page_cloned(m, removed), added, out);
    lemma_child_in_clone(s, m, page_cloned(m, removed), added, out, child);
    reveal(child_stored);
    let w = before_child(s, m, child);
    let (wi, tags) = cloned_image(w, s, cloned_entries(s, from, e, big), e)->Ok_0;
    lemma_cloned_image(w, s, cloned_entries(s, from, e, big), e);
    let at = child_places(s, m)[child];
    let entries = ifd_at(out, at, e, big, m.children[child].ifd_type).entries;
    assert(cloned_entries(s, from, e, big).dom().contains(ct));
    assert(cloned_entries(s, from, e, big).dom().contains(ot));
    assert(tags.contains_key(ct) && tags.contains_key(ot));
    lemma_chunk_kept(s, from, w, out, entries, tags, wi.len() as int, at, tiled, i, e, big);
}

} // verus!
