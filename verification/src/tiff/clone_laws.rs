//! What becomes of the bytes of a TIFF file in its clone.

use vstd::prelude::*;

use crate::endian::Endianness;
use crate::error::Error;
use crate::numbers::{law_integers_are_read, number_of};
use crate::tiff::children::{before_child, child_stored, lemma_child_in_clone};
use crate::tiff::directory::{decoded_offset, ifd_at, value_field, IfdEntry, IfdType, IFDEntryType};
use crate::tiff::format_laws::{
    count_at, field_at, first_place, has_directory, is_entry_for, is_header,
    law_directories_are_read, law_entries_are_read, law_files_are_read, law_headers_are_read,
    law_only_headers_are_read, law_tags_are_those_of_entries, law_values_are_read, lowest_first,
    place_at, subfile_place, subfiles, type_at, width_of, word_width, law_types_have_their_widths,
};
use crate::tiff::laws::{
    clones, law_child_image_data_is_kept, law_child_values_are_kept, law_image_data_is_kept,
    law_other_values_are_kept, law_tags_of_a_clone, lemma_page_has, page_cloned,
};
use crate::tiff::layout::{
    cloned_entries, cloned_entry, cloned_image, cloned_value, counts_tag, inline_field, offsets_tag,
    ClonedModel, unit_width,
};
use crate::tiff::lemmas::{field_of, holds_value, lemma_cloned_image, stores};
use crate::tiff::map::{parse_tiff, TiffModel};
use crate::tiff::reread::{
    before_page, child_places, finds_subfiles, lemma_clone_page, lemma_clone_parses,
    lemma_clone_tags, no_children, page_tags,
};
use crate::tiff::values::{chunk_of, lemma_field_offset, reads_back};

verus! {

broadcast use crate::endian::group_widths;

// Values.

/// Whether entry `j` of the directory at `q` of `out` has the type, the count and the values of
/// entry `k` of the directory at `p` of `s`. Values that do not fit the value field are copied
/// from where the one entry points to where the other does. Others are in the value field, and
/// were there too, but for a value of eight bytes, which was where the entry pointed.
pub open spec fn keeps_values(
    s: Seq<u8>,
    p: int,
    k: int,
    out: Seq<u8>,
    q: int,
    j: int,
    low: bool,
    big: bool,
) -> bool {
    let width = width_of(type_at(s, p, k, low, big) as u16);
    let n = width * count_at(s, p, k, low, big);
    let from = place_at(s, p, k, low, big);
    let to = place_at(out, q, j, low, big);
    &&& type_at(out, q, j, low, big) == type_at(s, p, k, low, big)
    &&& count_at(out, q, j, low, big) == count_at(s, p, k, low, big)
    &&& width != 0
    &&& n > word_width(big) ==> {
        &&& from + n <= s.len()
        &&& to + n <= out.len()
        &&& out.subrange(to, to + n) == s.subrange(from, from + n)
    }
    &&& n <= word_width(big) ==> {
        &&& width < 8 ==> field_at(out, q, j, big).take(n) == field_at(s, p, k, big).take(n)
        &&& width == 8 ==> {
            &&& from + n <= s.len()
            &&& field_at(out, q, j, big).take(n) == s.subrange(from, from + n)
        }
        &&& forall|i: int| n <= i < word_width(big) ==> #[trigger] field_at(out, q, j, big)[i] == 0
    }
}

/// An entry that is stored as it was cloned keeps its values.
#[verifier::spinoff_prover]
#[verifier::rlimit(30)]
proof fn lemma_values_kept(
    s: Seq<u8>,
    p: int,
    k: int,
    entry: IfdEntry,
    out: Seq<u8>,
    q: int,
    j: int,
    tags: Map<u16, ClonedModel>,
    t: u16,
    lo: int,
    hi: int,
    ty: IfdType,
    from: IfdType,
    e: Endianness,
    big: bool,
)
    requires
        0 <= p && 0 <= q,
        has_directory(s, p, lowest_first(e), big),
        is_entry_for(s, p, k, lowest_first(e), big, t),
        entry == ifd_at(s, p, e, big, from).entries[t],
        has_directory(out, q, lowest_first(e), big),
        is_entry_for(out, q, j, lowest_first(e), big, t),
        stores(ifd_at(out, q, e, big, ty).entries, tags, out, lo, hi, e, big),
        0 <= lo,
        tags.contains_key(t),
        tags[t] == cloned_entry(s, t, entry, e, big),
        cloned_value(s, entry, e, big) is Ok,
    ensures
        keeps_values(s, p, k, out, q, j, lowest_first(e), big),
{
    let low = lowest_first(e);
    law_entries_are_read(s, p, e, big, from, k, t);
    law_entries_are_read(out, q, e, big, ty, j, t);
    law_values_are_read(s, entry, e, big);
    let after = ifd_at(out, q, e, big, ty).entries[t];
    let v = tags[t].value_bytes;
    assert(holds_value(out, lo, hi, tags[t], field_of(after, big), e, big));
    lemma_field_offset(after, e, big);
    let width = width_of(entry.entry_type);
    let n = width * entry.value_count;
    let field = field_at(out, q, j, big);
    if n <= word_width(big) {
        assert(field == inline_field(v, big));
        assert(field.take(n) =~= v);
        let all = value_field(entry.value_offset);
        if width < 8 {
            assert(all.take(n) =~= all.take(word_width(big) as int).take(n));
        }
    }
}

/// A directory that hangs off the page of a file is in the file where it says.
proof fn lemma_child_found(s: Seq<u8>, m: TiffModel, i: int)
    requires
        parse_tiff(s) == Ok::<TiffModel, Error>(m),
        0 <= i < m.children.len(),
    ensures
        has_directory(
            s,
            m.children[i].offset as int,
            lowest_first(m.byte_order),
            m.big_tiff,
        ),
        m.children[i] == ifd_at(
            s,
            m.children[i].offset as int,
            m.byte_order,
            m.big_tiff,
            m.children[i].ifd_type,
        ),
{
    law_files_are_read(s);
    let e = m.byte_order;
    let big = m.big_tiff;
    let entries = m.page.entries;
    let exif = subfiles(entries);
    if i < exif {
        let at = subfile_place(s, entries[0x14a], e, big, i);
        law_integers_are_read(e, value_field(entries[0x14a].value_offset), 4 * i);
        law_integers_are_read(
            e,
            s,
            decoded_offset(entries[0x14a].value_offset, e, big) + 4 * i,
        );
        assert(0 <= at <= u64::MAX);
        assert(m.children[i] == ifd_at(s, at, e, big, IfdType::Subfile));
    }
}

/// The values of the page of a file are in its clone, byte for byte: where the page of the clone
/// says. Only the tags of image offsets and of other directories have values that change, and the
/// tags that the clone has been given.
pub proof fn law_values_are_copied(
    s: Seq<u8>,
    low: bool,
    big: bool,
    added: Map<u16, ClonedModel>,
    removed: bool,
    out: Seq<u8>,
    k: int,
    t: u16,
)
    requires
        is_header(s, low, big),
        clones(s, added, removed, out),
        is_entry_for(s, first_place(s, low, big), k, low, big, t),
        !added.contains_key(t),
        t != 273 && t != 324 && t != 0x14a && t != 0x8769 && t != 0x8825,
        removed ==> t != 0xcd41,
    ensures
        is_header(out, low, big),
        has_directory(out, first_place(out, low, big), low, big),
        exists|j: int| #[trigger]
            is_entry_for(out, first_place(out, low, big), j, low, big, t) && keeps_values(
                s,
                first_place(s, low, big),
                k,
                out,
                first_place(out, low, big),
                j,
                low,
                big,
            ),
{
    law_headers_are_read(s, low, big);
    law_files_are_read(s);
    let m = parse_tiff(s)->Ok_0;
    let e = m.byte_order;
    let p = first_place(s, low, big);
    let page = page_cloned(m, removed);
    law_entries_are_read(s, p, e, big, IfdType::Page, k, t);
    lemma_clone_page(s, page, m.children, added, e, big);
    lemma_page_has(s, page, m.children, added, e, big, t);
    law_only_headers_are_read(out);
    law_headers_are_read(out, low, big);
    let q = first_place(out, low, big);
    let tags = page_tags(s, page, m.children, added, e, big);
    let lo = before_page(s, page, m.children, added, e, big).len() as int;
    law_directories_are_read(out, q, e, big, IfdType::Page);
    assert(ifd_at(out, q, e, big, IfdType::Page).entries.dom().contains(t));
    law_tags_are_those_of_entries(out, q, e, big, IfdType::Page, t);
    let j = choose|j: int| #[trigger] is_entry_for(out, q, j, low, big, t);
    assert(cloned_value(s, page[t], e, big) is Ok);
    lemma_values_kept(
        s,
        p,
        k,
        page[t],
        out,
        q,
        j,
        tags,
        t,
        lo,
        q,
        IfdType::Page,
        IfdType::Page,
        e,
        big,
    );
}

/// Whether entry `j` of the directory at `q` of `out` is that of a tag with the values `v`.
pub open spec fn holds_values(
    out: Seq<u8>,
    q: int,
    j: int,
    low: bool,
    big: bool,
    ty: u16,
    count: u64,
    v: Seq<u8>,
) -> bool {
    let to = place_at(out, q, j, low, big);
    &&& type_at(out, q, j, low, big) == ty
    &&& count_at(out, q, j, low, big) == count
    &&& if v.len() > word_width(big) {
        to + v.len() <= out.len() && out.subrange(to, to + v.len()) == v
    } else {
        field_at(out, q, j, big) == v + Seq::new(
            (word_width(big) - v.len()) as nat,
            |i: int| 0u8,
        )
    }
}

/// The tags that a clone has been given are in its page, with their types, counts and values; but
/// not the values of those that directories of the source hang off.
pub proof fn law_added_tags_are_written(
    s: Seq<u8>,
    low: bool,
    big: bool,
    added: Map<u16, ClonedModel>,
    out: Seq<u8>,
    t: u16,
)
    requires
        is_header(s, low, big),
        clones(s, added, false, out),
        added.contains_key(t),
        t != 0x14a && t != 0x8769 && t != 0x8825,
    ensures
        is_header(out, low, big),
        has_directory(out, first_place(out, low, big), low, big),
        exists|j: int| #[trigger]
            is_entry_for(out, first_place(out, low, big), j, low, big, t) && holds_values(
                out,
                first_place(out, low, big),
                j,
                low,
                big,
                added[t].entry_type,
                added[t].value_count,
                added[t].value_bytes,
            ),
{
    law_headers_are_read(s, low, big);
    law_files_are_read(s);
    let m = parse_tiff(s)->Ok_0;
    let e = m.byte_order;
    let page = m.page.entries;
    lemma_clone_page(s, page, m.children, added, e, big);
    lemma_page_has(s, page, m.children, added, e, big, t);
    law_only_headers_are_read(out);
    law_headers_are_read(out, low, big);
    let q = first_place(out, low, big);
    let tags = page_tags(s, page, m.children, added, e, big);
    let lo = before_page(s, page, m.children, added, e, big).len() as int;
    law_directories_are_read(out, q, e, big, IfdType::Page);
    let entries = ifd_at(out, q, e, big, IfdType::Page).entries;
    assert(entries.dom().contains(t));
    law_tags_are_those_of_entries(out, q, e, big, IfdType::Page, t);
    let j = choose|j: int| #[trigger] is_entry_for(out, q, j, low, big, t);
    law_entries_are_read(out, q, e, big, IfdType::Page, j, t);
    assert(holds_value(out, lo, q, tags[t], field_of(entries[t], big), e, big));
    lemma_field_offset(entries[t], e, big);
    let v = added[t].value_bytes;
    if v.len() <= word_width(big) {
        assert(field_at(out, q, j, big) =~= v + Seq::new(
            (word_width(big) - v.len()) as nat,
            |i: int| 0u8,
        ));
    }
}

/// The page of a clone has just the tags of the page of the file, but for the manifest store where
/// that is removed, and those that it has been given.
pub proof fn law_no_other_tags_are_written(
    s: Seq<u8>,
    low: bool,
    big: bool,
    added: Map<u16, ClonedModel>,
    removed: bool,
    out: Seq<u8>,
    t: u16,
)
    requires
        is_header(s, low, big),
        clones(s, added, removed, out),
    ensures
        is_header(out, low, big),
        (exists|j: int| #[trigger] is_entry_for(out, first_place(out, low, big), j, low, big, t))
            <==> {
            ||| added.contains_key(t)
            ||| !(removed && t == 0xcd41) && exists|k: int| #[trigger]
                is_entry_for(s, first_place(s, low, big), k, low, big, t)
        },
{
    law_headers_are_read(s, low, big);
    law_files_are_read(s);
    let m = parse_tiff(s)->Ok_0;
    let e = m.byte_order;
    let p = first_place(s, low, big);
    let page = page_cloned(m, removed);
    lemma_clone_page(s, page, m.children, added, e, big);
    lemma_clone_tags(s, page, m.children, added, e, big);
    law_only_headers_are_read(out);
    law_headers_are_read(out, low, big);
    let q = first_place(out, low, big);
    law_directories_are_read(out, q, e, big, IfdType::Page);
    let before = ifd_at(s, p, e, big, IfdType::Page).entries;
    let after = ifd_at(out, q, e, big, IfdType::Page).entries;
    let tags = page_tags(s, page, m.children, added, e, big);
    assert(after.dom().contains(t) <==> tags.dom().contains(t));
    assert(tags.dom().contains(t) <==> page.dom().contains(t) || added.dom().contains(t));
    law_tags_are_those_of_entries(s, p, e, big, IfdType::Page, t);
    law_tags_are_those_of_entries(out, q, e, big, IfdType::Page, t);
    assert forall|k: int| #[trigger] is_entry_for(s, p, k, low, big, t) implies before.contains_key(
        t,
    ) by {
        law_entries_are_read(s, p, e, big, IfdType::Page, k, t);
    }
    assert forall|j: int| #[trigger]
        is_entry_for(out, q, j, low, big, t) implies after.contains_key(t) by {
        law_entries_are_read(out, q, e, big, IfdType::Page, j, t);
    }
}

/// The values of the directories that hang off the page of a file are in its clone, byte for byte,
/// where the directory of the clone in the same place says, but for the offsets of image data.
pub proof fn law_child_values_are_copied(
    s: Seq<u8>,
    m: TiffModel,
    added: Map<u16, ClonedModel>,
    removed: bool,
    out: Seq<u8>,
    i: int,
    k: int,
    t: u16,
)
    requires
        parse_tiff(s) == Ok::<TiffModel, Error>(m),
        no_children(added),
        clones(s, added, removed, out),
        finds_subfiles(m, out),
        0 <= i < m.children.len(),
        is_entry_for(
            s,
            m.children[i].offset as int,
            k,
            lowest_first(m.byte_order),
            m.big_tiff,
            t,
        ),
        t != 273 && t != 324,
    ensures
        parse_tiff(out) matches Ok(m2) && {
            let low = lowest_first(m.byte_order);
            let q = m2.children[i].offset as int;
            &&& m2.byte_order == m.byte_order
            &&& m2.big_tiff == m.big_tiff
            &&& m2.children.len() == m.children.len()
            &&& m2.children[i].ifd_type == m.children[i].ifd_type
            &&& has_directory(out, q, low, m.big_tiff)
            &&& exists|j: int| #[trigger]
                is_entry_for(out, q, j, low, m.big_tiff, t) && keeps_values(
                    s,
                    m.children[i].offset as int,
                    k,
                    out,
                    q,
                    j,
                    low,
                    m.big_tiff,
                )
        },
{
    let e = m.byte_order;
    let big = m.big_tiff;
    let low = lowest_first(e);
    let from = m.children[i].entries;
    law_files_are_read(s);
    lemma_child_found(s, m, i);
    let p = m.children[i].offset as int;
    law_entries_are_read(s, p, e, big, m.children[i].ifd_type, k, t);
    lemma_clone_parses(s, m, page_cloned(m, removed), added, out);
    lemma_child_in_clone(s, m, page_cloned(m, removed), added, out, i);
    reveal(child_stored);
    let w = before_child(s, m, i);
    let cloned = cloned_entries(s, from, e, big);
    let (wi, tags) = cloned_image(w, s, cloned, e)->Ok_0;
    lemma_cloned_image(w, s, cloned, e);
    let q = child_places(s, m)[i];
    let ty = m.children[i].ifd_type;
    assert(cloned.dom().contains(t));
    assert(tags.contains_key(t));
    assert(ifd_at(out, q, e, big, ty).entries.dom().contains(t));
    law_files_are_read(out);
    let m2 = parse_tiff(out)->Ok_0;
    lemma_child_found(out, m2, i);
    law_tags_are_those_of_entries(out, m2.children[i].offset as int, e, big, ty, t);
    let j = choose|j: int| #[trigger]
        is_entry_for(out, m2.children[i].offset as int, j, low, big, t);
    assert(cloned_value(s, from[t], e, big) is Ok);
    lemma_values_kept(
        s,
        p,
        k,
        from[t],
        out,
        m2.children[i].offset as int,
        j,
        tags,
        t,
        wi.len() as int,
        q,
        ty,
        ty,
        e,
        big,
    );
}

// Image data.

/// The tag of the byte counts of tiles, or of strips.
pub open spec fn byte_counts(tiled: bool) -> u16 {
    if tiled {
        325
    } else {
        279
    }
}

/// The tag of the offsets of tiles, or of strips.
pub open spec fn offsets(tiled: bool) -> u16 {
    if tiled {
        324
    } else {
        273
    }
}

/// Whether a directory describes an image in tiles and not in strips, or in strips and not in
/// tiles.
pub open spec fn describes_image(entries: Map<u16, IfdEntry>, tiled: bool) -> bool {
    &&& entries.contains_key(byte_counts(tiled))
    &&& entries.contains_key(offsets(tiled))
    &&& !entries.contains_key(byte_counts(!tiled))
    &&& !entries.contains_key(offsets(!tiled))
}

/// Number `i` of the values of the entry for `t`, which are integers of two, four or eight bytes.
pub open spec fn listed(
    s: Seq<u8>,
    entries: Map<u16, IfdEntry>,
    t: u16,
    i: int,
    e: Endianness,
    big: bool,
) -> int {
    let width = width_of(entries[t].entry_type);
    number_of(
        cloned_value(s, entries[t], e, big)->Ok_0,
        width * i,
        width as nat,
        lowest_first(e),
    )
}

/// Whether a strip or a tile of an image is in `out` where the one directory says, and is the one
/// that is in `s` where the other says.
pub open spec fn keeps_chunk(
    s: Seq<u8>,
    before: Map<u16, IfdEntry>,
    out: Seq<u8>,
    after: Map<u16, IfdEntry>,
    tiled: bool,
    i: int,
    e: Endianness,
    big: bool,
) -> bool {
    let n = listed(s, before, byte_counts(tiled), i, e, big);
    let from = listed(s, before, offsets(tiled), i, e, big);
    let to = listed(out, after, offsets(tiled), i, e, big);
    &&& listed(out, after, byte_counts(tiled), i, e, big) == n
    &&& from + n <= s.len()
    &&& to + n <= out.len()
    &&& out.subrange(to, to + n) == s.subrange(from, from + n)
}

/// Whether the values of an entry of a clone are found again: all are but a single one of eight
/// bytes in a BigTIFF file, which is put in the value field and not looked for there.
pub open spec fn is_found(entry: IfdEntry, big: bool) -> bool {
    !(big && width_of(entry.entry_type) == 8 && entry.value_count == 1)
}

proof fn lemma_found(entry: IfdEntry, big: bool)
    requires
        is_found(entry, big),
    ensures
        reads_back(entry, big),
{
    assert forall|t: IFDEntryType| #[trigger] t.code() == entry.entry_type implies !(big
        && unit_width(t) == 8 && entry.value_count == 1) by {
        law_types_have_their_widths(t, 1);
    }
}

/// A chunk of an image is what the directory says.
proof fn lemma_chunk(
    s: Seq<u8>,
    entries: Map<u16, IfdEntry>,
    tiled: bool,
    i: int,
    e: Endianness,
    big: bool,
)
    requires
        describes_image(entries, tiled),
        chunk_of(s, entries, tiled, i, e, big) is Some,
    ensures
        ({
            let n = listed(s, entries, byte_counts(tiled), i, e, big);
            let at = listed(s, entries, offsets(tiled), i, e, big);
            &&& 0 <= n && 0 <= at && at + n <= s.len()
            &&& chunk_of(s, entries, tiled, i, e, big) == Some(s.subrange(at, at + n))
        }),
{
    let m = cloned_entries(s, entries, e, big);
    let c = m[counts_tag(tiled)];
    let o = m[offsets_tag(tiled)];
    law_integers_are_read(e, c.value_bytes, width_of(c.entry_type) * i);
    law_integers_are_read(e, o.value_bytes, width_of(o.entry_type) * i);
}

/// The strips or tiles that the page of a file describes are in its clone, where the page of the
/// clone says, byte for byte.
pub proof fn law_image_data_is_copied(
    s: Seq<u8>,
    m: TiffModel,
    added: Map<u16, ClonedModel>,
    removed: bool,
    out: Seq<u8>,
    m2: TiffModel,
    tiled: bool,
    i: int,
)
    requires
        parse_tiff(s) == Ok::<TiffModel, Error>(m),
        clones(s, added, removed, out),
        parse_tiff(out) == Ok::<TiffModel, Error>(m2),
        describes_image(m.page.entries, tiled),
        !added.contains_key(273) && !added.contains_key(279) && !added.contains_key(324)
            && !added.contains_key(325),
        is_found(m.page.entries[byte_counts(tiled)], m.big_tiff),
        is_found(m.page.entries[offsets(tiled)], m.big_tiff),
        0 <= i < m.page.entries[byte_counts(tiled)].value_count,
    ensures
        describes_image(m2.page.entries, tiled),
        keeps_chunk(
            s,
            m.page.entries,
            out,
            m2.page.entries,
            tiled,
            i,
            m.byte_order,
            m.big_tiff,
        ),
{
    let e = m.byte_order;
    let big = m.big_tiff;
    lemma_found(m.page.entries[byte_counts(tiled)], big);
    lemma_found(m.page.entries[offsets(tiled)], big);
    law_image_data_is_kept(s, m, added, removed, out, tiled, i);
    law_tags_of_a_clone(s, m, added, removed, out);
    assert forall|t: u16| t == 273 || t == 279 || t == 324 || t == 325 implies (
    #[trigger] m2.page.entries.contains_key(t) <==> m.page.entries.contains_key(t)) by {
        let before = page_cloned(m, removed);
        assert(m2.page.entries.dom().contains(t) <==> before.dom().contains(t)
            || added.dom().contains(t));
    }
    lemma_chunk(s, m.page.entries, tiled, i, e, big);
    lemma_chunk(out, m2.page.entries, tiled, i, e, big);
    law_other_values_are_kept(s, m, added, removed, out, byte_counts(tiled));
    let n = listed(s, m.page.entries, byte_counts(tiled), i, e, big);
    assert(chunk_of(s, m.page.entries, tiled, i, e, big)->0.len() == n);
}

/// The strips or tiles that a directory that hangs off the page of a file describes are in its
/// clone, where the directory of the clone in the same place says, byte for byte.
pub proof fn law_child_image_data_is_copied(
    s: Seq<u8>,
    m: TiffModel,
    added: Map<u16, ClonedModel>,
    removed: bool,
    out: Seq<u8>,
    child: int,
    tiled: bool,
    i: int,
)
    requires
        parse_tiff(s) == Ok::<TiffModel, Error>(m),
        no_children(added),
        clones(s, added, removed, out),
        finds_subfiles(m, out),
        0 <= child < m.children.len(),
        describes_image(m.children[child].entries, tiled),
        is_found(m.children[child].entries[byte_counts(tiled)], m.big_tiff),
        is_found(m.children[child].entries[offsets(tiled)], m.big_tiff),
        0 <= i < m.children[child].entries[byte_counts(tiled)].value_count,
    ensures
        parse_tiff(out) matches Ok(m2) && {
            &&& describes_image(m2.children[child].entries, tiled)
            &&& keeps_chunk(
                s,
                m.children[child].entries,
                out,
                m2.children[child].entries,
                tiled,
                i,
                m.byte_order,
                m.big_tiff,
            )
        },
{
    let e = m.byte_order;
    let big = m.big_tiff;
    let from = m.children[child].entries;
    lemma_found(from[byte_counts(tiled)], big);
    lemma_found(from[offsets(tiled)], big);
    law_child_image_data_is_kept(s, m, added, removed, out, child, tiled, i);
    lemma_clone_parses(s, m, page_cloned(m, removed), added, out);
    lemma_child_in_clone(s, m, page_cloned(m, removed), added, out, child);
    reveal(child_stored);
    let w = before_child(s, m, child);
    let cloned = cloned_entries(s, from, e, big);
    let (wi, tags) = cloned_image(w, s, cloned, e)->Ok_0;
    lemma_cloned_image(w, s, cloned, e);
    let m2 = parse_tiff(out)->Ok_0;
    let after = m2.children[child].entries;
    assert forall|t: u16| #[trigger] after.contains_key(t) <==> from.contains_key(t) by {
        assert(after.dom().contains(t) <==> tags.dom().contains(t));
        assert(tags.dom().contains(t) <==> cloned.dom().contains(t));
    }
    lemma_chunk(s, from, tiled, i, e, big);
    lemma_chunk(out, after, tiled, i, e, big);
    law_child_values_are_kept(s, m, added, removed, out, child, byte_counts(tiled));
}

} // verus!
