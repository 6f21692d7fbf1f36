//! When a TIFF file can be cloned, and in what order a clone lists its tags.

use vstd::prelude::*;

use crate::endian::{lemma_u16_round_trip, u16_bytes, Endianness};
use crate::error::Error;
use crate::numbers::{law_integers_are_read, number_of};
use crate::tiff::clone_laws::{byte_counts, offsets};
use crate::tiff::cloner::lemma_numbers_bytes_len;
use crate::tiff::directory::{
    count_width, decoded_offset, entry_pos, offset_width, IfdEntry, IfdModel, IfdType,
};
use crate::tiff::format_laws::{
    entries_at, entry_start, first_place, is_header, law_files_are_read, law_headers_are_read,
    law_only_headers_are_read, law_values_are_read, lowest_first, subfiles, tag_at, width_of,
    word_width,
};
use crate::tiff::io::clone_with;
use crate::tiff::laws::{clones, page_cloned};
use crate::tiff::layout::{
    blank_header, cloned_child, cloned_children, cloned_chunks, cloned_entries, cloned_image,
    cloned_page, cloned_tiff, cloned_value, copied_chunks, entries_bytes, entries_clone,
    entry_bytes, has_chunks, header_slot, offsets_tag, padded, patched, placed_values, places_of,
    with_child_places, with_offsets, with_places, word_bytes, words_bytes, written_ifd, ClonedModel,
};
use crate::tiff::lemmas::{
    holds_value, lemma_cloned_children, lemma_cloned_image, lemma_entries_bytes,
    lemma_placed_values, lemma_written_ifd,
};
use crate::tiff::map::{parse_tiff, TiffModel};
use crate::tiff::reread::{lemma_clone_page, lemma_words_len, page_place};
use crate::tiff::tags::{lemma_sorted_tags, sorted_tags, tags_below};

verus! {

broadcast use crate::endian::group_widths;

// Directories.

/// The number of tags below `limit`.
pub open spec fn tags_in(m: Map<u16, ClonedModel>, limit: int) -> int
    decreases limit,
{
    if limit <= 0 {
        0
    } else if m.contains_key((limit - 1) as u16) {
        tags_in(m, limit - 1) + 1
    } else {
        tags_in(m, limit - 1)
    }
}

/// The length of the values of all tags below `limit`.
pub open spec fn length_of(m: Map<u16, ClonedModel>, limit: int) -> int
    decreases limit,
{
    if limit <= 0 {
        0
    } else if m.contains_key((limit - 1) as u16) {
        length_of(m, limit - 1) + m[(limit - 1) as u16].value_bytes.len()
    } else {
        length_of(m, limit - 1)
    }
}

/// The largest number of the width of an offset.
pub open spec fn largest_place(big: bool) -> int {
    if big {
        0xffff_ffff_ffff_ffff
    } else {
        0xffff_ffff
    }
}

/// What a directory takes at most: the values, what fills up to a multiple of four, the count, the
/// entries and the place of the next directory.
pub open spec fn directory_size(m: Map<u16, ClonedModel>) -> int {
    length_of(m, 0x1_0000) + 3 + 8 + 20 * tags_in(m, 0x1_0000) + 8
}

proof fn lemma_sizes(m: Map<u16, ClonedModel>, limit: int)
    ensures
        0 <= tags_in(m, limit),
        0 <= length_of(m, limit),
    decreases limit,
{
    if limit > 0 {
        lemma_sizes(m, limit - 1);
    }
}

proof fn lemma_values_placed(
    w: Seq<u8>,
    m: Map<u16, ClonedModel>,
    limit: int,
    e: Endianness,
    big: bool,
)
    requires
        limit <= 0x1_0000,
        w.len() + length_of(m, limit) <= largest_place(big),
    ensures
        tags_below(m.dom(), limit).len() == tags_in(m, limit),
        placed_values(w, m, tags_below(m.dom(), limit), e, big) matches Some((w1, fields))
            && w1.len() <= w.len() + length_of(m, limit),
    decreases limit,
{
    lemma_sizes(m, limit);
    if limit > 0 {
        let t = (limit - 1) as u16;
        lemma_values_placed(w, m, limit - 1, e, big);
        let less = tags_below(m.dom(), limit - 1);
        if m.contains_key(t) {
            assert(less.push(t).drop_last() =~= less);
        }
    }
}

/// A directory can be written wherever its numbers fit: its places the width of an offset, and in a
/// file that is no BigTIFF file its counts 32 bits and the number of its tags 16 bits.
pub proof fn law_directories_can_be_written(
    w: Seq<u8>,
    m: Map<u16, ClonedModel>,
    e: Endianness,
    big: bool,
)
    requires
        w.len() + length_of(m, 0x1_0000) <= largest_place(big),
        !big ==> tags_in(m, 0x1_0000) <= 0xffff,
        !big ==> forall|t: u16| #[trigger]
            m.contains_key(t) ==> m[t].value_count <= 0xffff_ffff,
    ensures
        written_ifd(w, m, e, big) matches Some((w2, at)) && {
            &&& at <= w.len() + length_of(m, 0x1_0000) + 3
            &&& w2.len() + word_width(big) <= w.len() + directory_size(m)
        },
{
    let ks = sorted_tags(m.dom());
    lemma_sorted_tags(m.dom());
    lemma_values_placed(w, m, 0x1_0000, e, big);
    lemma_placed_values(w, m, ks, e, big);
    let (w1, fields) = placed_values(w, m, ks, e, big)->0;
    assert forall|i: int| 0 <= i < fields.len() implies (#[trigger] fields[i]).len()
        == offset_width(big) by {
        assert(holds_value(w1, w.len() as int, w1.len() as int, m[ks[i]], fields[i], e, big));
    }
    lemma_entries_bytes(m, ks, fields, e, big);
    assert forall|i: int| 0 <= i < ks.len() && !big implies (#[trigger] m[ks[i]]).value_count
        <= u32::MAX by {
        assert(ks.contains(ks[i]));
        assert(m.contains_key(ks[i]));
    }
}

/// A directory that is written starts at a multiple of four, and lists its tags in increasing
/// order, each once.
pub proof fn law_directories_are_in_order(
    w: Seq<u8>,
    m: Map<u16, ClonedModel>,
    e: Endianness,
    big: bool,
    b: Seq<u8>,
)
    requires
        written_ifd(w, m, e, big) matches Some((w2, at)) && w2.len() <= b.len() && forall|i: int|
            at <= i < w2.len() ==> #[trigger] b[i] == w2[i],
    ensures
        ({
            let (w2, at) = written_ifd(w, m, e, big)->0;
            let low = lowest_first(e);
            &&& at % 4 == 0
            &&& forall|i: int, j: int|
                0 <= i < j < entries_at(b, at, low, big) ==> #[trigger] tag_at(b, at, i, low, big)
                    < #[trigger] tag_at(b, at, j, low, big)
        }),
{
    let (w2, at) = written_ifd(w, m, e, big)->0;
    let low = lowest_first(e);
    let ks = sorted_tags(m.dom());
    lemma_sorted_tags(m.dom());
    let (w1, fields) = placed_values(w, m, ks, e, big)->0;
    lemma_placed_values(w, m, ks, e, big);
    assert forall|i: int| 0 <= i < fields.len() implies (#[trigger] fields[i]).len()
        == offset_width(big) by {
        assert(holds_value(w1, w.len() as int, w1.len() as int, m[ks[i]], fields[i], e, big));
    }
    lemma_entries_bytes(m, ks, fields, e, big);
    let start = padded(w1);
    let cb = crate::tiff::layout::count_bytes(e, ks.len() as int, big);
    let eb = entries_bytes(m, ks, fields, e, big);
    assert(w2 =~= start + cb + eb);
    assert(b.subrange(at, at + count_width(big)) =~= cb) by {
        assert(w2.subrange(at, at + count_width(big)) =~= cb);
    }
    if big {
        crate::endian::lemma_u64_round_trip(e, b, at, ks.len() as int);
    } else {
        lemma_u16_round_trip(e, b, at, ks.len() as int);
    }
    law_integers_are_read(e, b, at);
    let n = entries_at(b, at, low, big);
    assert(n == ks.len());
    assert forall|i: int| 0 <= i < n implies #[trigger] tag_at(b, at, i, low, big) == ks[i] by {
        let q = entry_start(at, i, big);
        let one = eb.subrange(entry_pos(0, i, big), entry_pos(0, i + 1, big));
        assert(one == entry_bytes(ks[i], m[ks[i]], fields[i], e, big));
        assert(b.subrange(q, q + 2) =~= one.subrange(0, 2)) by {
            assert forall|j: int| 0 <= j < 2 implies b[q + j] == #[trigger] one[j] by {
                assert(w2[q + j] == eb[entry_pos(0, i, big) + j]);
            }
        }
        assert(one.subrange(0, 2) =~= u16_bytes(e, ks[i] as int));
        lemma_u16_round_trip(e, b, q, ks[i] as int);
        law_integers_are_read(e, b, q);
    }
}

proof fn lemma_behind_patch(w: Seq<u8>, p: int, b: Seq<u8>, more: Seq<u8>, i: int)
    requires
        0 <= p,
        p + b.len() <= i < w.len(),
    ensures
        (patched(w, p, b) + more)[i] == w[i],
        patched(w, p, b).len() == w.len(),
{
}

proof fn lemma_page_as_written(
    s: Seq<u8>,
    page: Map<u16, IfdEntry>,
    children: Seq<IfdModel>,
    added: Map<u16, ClonedModel>,
    e: Endianness,
    big: bool,
    out: Seq<u8>,
)
    requires
        cloned_tiff(blank_header(e, big), s, page, children, added, e, big) == Some(out),
    ensures
        ({
            let (w1, tags) = cloned_page(
                blank_header(e, big),
                s,
                page,
                children,
                added,
                e,
                big,
            )->0;
            let (w2, at) = written_ifd(w1, tags, e, big)->0;
            &&& written_ifd(w1, tags, e, big) is Some
            &&& at == page_place(s, page, children, added, e, big)
            &&& w2.len() <= out.len()
            &&& forall|i: int| at <= i < w2.len() ==> #[trigger] out[i] == w2[i]
        }),
{
    lemma_clone_page(s, page, children, added, e, big);
    let h = blank_header(e, big);
    let (w1, tags) = cloned_page(h, s, page, children, added, e, big)->0;
    let (w2, at) = written_ifd(w1, tags, e, big)->0;
    let slot = header_slot(big);
    lemma_written_ifd(w1, tags, e, big, IfdType::Page);
    assert forall|i: int| at <= i < w2.len() implies #[trigger] out[i] == w2[i] by {
        lemma_behind_patch(w2, slot, word_bytes(e, at, big), word_bytes(e, 0, big), i);
    }
    assert(out.len() == w2.len() + offset_width(big));
}

/// The page of a clone starts at a multiple of four, and lists its tags in increasing order, each
/// once.
pub proof fn law_the_page_is_in_order(
    s: Seq<u8>,
    low: bool,
    big: bool,
    added: Map<u16, ClonedModel>,
    removed: bool,
    out: Seq<u8>,
)
    requires
        is_header(s, low, big),
        clones(s, added, removed, out),
    ensures
        is_header(out, low, big),
        ({
            let q = first_place(out, low, big);
            &&& q % 4 == 0
            &&& forall|i: int, j: int|
                0 <= i < j < entries_at(out, q, low, big) ==> #[trigger] tag_at(out, q, i, low, big)
                    < #[trigger] tag_at(out, q, j, low, big)
        }),
{
    law_headers_are_read(s, low, big);
    let m = parse_tiff(s)->Ok_0;
    let e = m.byte_order;
    let page = page_cloned(m, removed);
    lemma_clone_page(s, page, m.children, added, e, big);
    law_only_headers_are_read(out);
    law_headers_are_read(out, low, big);
    lemma_page_as_written(s, page, m.children, added, e, big, out);
    let h = blank_header(e, big);
    let (w1, tags) = cloned_page(h, s, page, m.children, added, e, big)->0;
    law_directories_are_in_order(w1, tags, e, big, out);
}

// Image data.

/// Number `i` of a list of integers of two, four or eight bytes.
pub open spec fn in_list(c: ClonedModel, i: int, low: bool) -> int {
    number_of(
        c.value_bytes,
        width_of(c.entry_type) * i,
        width_of(c.entry_type) as nat,
        low,
    )
}

/// The sum of the first `k` numbers of a list.
pub open spec fn sum_of(c: ClonedModel, k: int, low: bool) -> int
    decreases k,
{
    if k <= 0 {
        0
    } else {
        sum_of(c, k - 1, low) + in_list(c, k - 1, low)
    }
}

/// Whether a type is one of lists of numbers.
pub open spec fn lists_numbers(ty: u16) -> bool {
    ty == 3 || ty == 4 || ty == 16
}

/// The largest number of a list of a type.
pub open spec fn largest_of(ty: u16) -> int {
    if ty == 3 {
        0xffff
    } else if ty == 4 {
        0xffff_ffff
    } else {
        0xffff_ffff_ffff_ffff
    }
}

/// Whether a directory describes an image in tiles and not in strips, or in strips and not in
/// tiles.
pub open spec fn has_image(m: Map<u16, ClonedModel>, tiled: bool) -> bool {
    &&& m.contains_key(byte_counts(tiled))
    &&& m.contains_key(offsets(tiled))
    &&& !m.contains_key(byte_counts(!tiled))
    &&& !m.contains_key(offsets(!tiled))
}

/// Whether the image that a directory describes is there: the lists of byte counts and of offsets
/// are as long as each other and of types that list numbers, and each strip or tile is in the file.
/// The offsets of tiles are not of two bytes.
pub open spec fn image_is_there(
    s: Seq<u8>,
    m: Map<u16, ClonedModel>,
    tiled: bool,
    low: bool,
) -> bool {
    let c = m[byte_counts(tiled)];
    let o = m[offsets(tiled)];
    let n = c.value_count as int;
    &&& o.value_count == n
    &&& n > 0 ==> {
        &&& lists_numbers(c.entry_type) && lists_numbers(o.entry_type)
        &&& tiled ==> o.entry_type != 3
        &&& width_of(c.entry_type) * n <= c.value_bytes.len()
        &&& width_of(o.entry_type) * n <= o.value_bytes.len()
        &&& forall|i: int|
            0 <= i < n ==> #[trigger] in_list(o, i, low) + in_list(c, i, low) <= s.len()
    }
}

proof fn lemma_list(c: ClonedModel, i: int, e: Endianness)
    ensures
        lists_numbers(c.entry_type) ==> in_list(c, i, lowest_first(e))
            == crate::tiff::layout::number_at(e, c.value_bytes, c.entry_type, i),
        lists_numbers(c.entry_type) ==> 0 <= in_list(c, i, lowest_first(e)),
{
    law_integers_are_read(e, c.value_bytes, width_of(c.entry_type) * i);
}

proof fn lemma_chunks_can_be_copied(
    w: Seq<u8>,
    s: Seq<u8>,
    m: Map<u16, ClonedModel>,
    counts: Seq<int>,
    e: Endianness,
    tiled: bool,
    k: int,
)
    requires
        s.len() <= usize::MAX,
        image_is_there(s, m, tiled, lowest_first(e)),
        m[byte_counts(tiled)].value_count > 0,
        counts.len() == m[byte_counts(tiled)].value_count,
        forall|i: int|
            0 <= i < counts.len() ==> #[trigger] counts[i] == in_list(
                m[byte_counts(tiled)],
                i,
                lowest_first(e),
            ),
        0 <= k <= counts.len(),
    ensures
        0 <= sum_of(m[byte_counts(tiled)], k, lowest_first(e)),
        copied_chunks(w, s, counts, m[offsets(tiled)], e, tiled, k) matches Ok((w1, at)) && {
            let end = w.len() + sum_of(m[byte_counts(tiled)], k, lowest_first(e));
            &&& w1.len() == end
            &&& at.len() == k
            &&& forall|i: int| 0 <= i < k ==> #[trigger] at[i] <= end
        },
    decreases k,
{
    let c = m[byte_counts(tiled)];
    let o = m[offsets(tiled)];
    let low = lowest_first(e);
    if k > 0 {
        lemma_chunks_can_be_copied(w, s, m, counts, e, tiled, k - 1);
        lemma_list(c, k - 1, e);
        lemma_list(o, k - 1, e);
        assert(counts[k - 1] == in_list(c, k - 1, low));
        assert(in_list(o, k - 1, low) + in_list(c, k - 1, low) <= s.len());
        assert(crate::tiff::layout::numbers_len(o.entry_type, k) == width_of(o.entry_type) * k);
        assert(width_of(o.entry_type) * k <= width_of(o.entry_type) * counts.len())
            by (nonlinear_arith)
            requires
                k <= counts.len(),
                width_of(o.entry_type) >= 0,
        ;
    }
}

proof fn lemma_same_lengths(a: Map<u16, ClonedModel>, b: Map<u16, ClonedModel>, limit: int)
    requires
        a.dom() == b.dom(),
        forall|t: u16| #[trigger]
            a.contains_key(t) ==> a[t].value_bytes.len() == b[t].value_bytes.len(),
    ensures
        length_of(a, limit) == length_of(b, limit),
        tags_in(a, limit) == tags_in(b, limit),
    decreases limit,
{
    if limit > 0 {
        lemma_same_lengths(a, b, limit - 1);
        let t = (limit - 1) as u16;
        assert(a.dom().contains(t) <==> b.dom().contains(t));
        assert(a.contains_key(t) ==> a[t].value_bytes.len() == b[t].value_bytes.len());
    }
}

/// The image that a directory describes can be copied wherever it is there, and its new places fit
/// their list.
pub proof fn law_image_data_can_be_copied(
    w: Seq<u8>,
    s: Seq<u8>,
    m: Map<u16, ClonedModel>,
    e: Endianness,
    tiled: bool,
)
    requires
        s.len() <= usize::MAX,
        has_image(m, tiled),
        image_is_there(s, m, tiled, lowest_first(e)),
        w.len() + sum_of(
            m[byte_counts(tiled)],
            m[byte_counts(tiled)].value_count as int,
            lowest_first(e),
        ) <= largest_of(m[offsets(tiled)].entry_type),
    ensures
        cloned_image(w, s, m, e) matches Ok((w1, m1)) && {
            let c = m[byte_counts(tiled)];
            &&& w1.len() == w.len() + sum_of(c, c.value_count as int, lowest_first(e))
            &&& m1.dom() == m.dom()
            &&& length_of(m1, 0x1_0000) == length_of(m, 0x1_0000)
            &&& tags_in(m1, 0x1_0000) == tags_in(m, 0x1_0000)
        },
{
    let c = m[byte_counts(tiled)];
    let o = m[offsets(tiled)];
    let low = lowest_first(e);
    let n = c.value_count as int;
    assert(has_chunks(m, tiled));
    let counts = crate::tiff::layout::chunk_counts(e, c, tiled)->Ok_0;
    assert(crate::tiff::layout::numbers_len(c.entry_type, n) == width_of(c.entry_type) * n || n
        == 0);
    assert(crate::tiff::layout::chunk_counts(e, c, tiled) is Ok);
    assert(counts.len() == n);
    assert forall|i: int| 0 <= i < counts.len() implies #[trigger] counts[i] == in_list(
        c,
        i,
        low,
    ) by {
        lemma_list(c, i, e);
    }
    if n > 0 {
        lemma_chunks_can_be_copied(w, s, m, counts, e, tiled, n);
    }
    let (w1, at) = copied_chunks(w, s, counts, o, e, tiled, n)->Ok_0;
    lemma_numbers_bytes_len(e, o.entry_type, at);
    assert(cloned_chunks(w, s, m, e, tiled) is Ok);
    assert(cloned_image(w, s, m, e) == cloned_chunks(w, s, m, e, tiled));
    lemma_cloned_image(w, s, m, e);
    let m1 = m.insert(offsets_tag(tiled), with_offsets(e, o, at));
    assert(with_offsets(e, o, at).value_bytes.len() == o.value_bytes.len());
    assert forall|t: u16| #[trigger] m1.contains_key(t) implies m1[t].value_bytes.len()
        == m[t].value_bytes.len() by {}
    assert(m1.dom() =~= m.dom());
    lemma_same_lengths(m1, m, 0x1_0000);
}

/// What is told of an image that cannot be copied: that the lists of byte counts and of offsets
/// are not as long as each other, that one is no list of numbers, or that one ends too early.
pub proof fn law_images_that_cannot_be_copied(
    w: Seq<u8>,
    s: Seq<u8>,
    m: Map<u16, ClonedModel>,
    e: Endianness,
    tiled: bool,
)
    requires
        has_image(m, tiled),
    ensures
        ({
            let c = m[byte_counts(tiled)];
            let o = m[offsets(tiled)];
            let n = c.value_count as int;
            &&& o.value_count != n ==> (cloned_image(w, s, m, e) matches Err(err) && err == if tiled {
                Error::InvalidAsset("TIFF tile count does not match tile offset count")
            } else {
                Error::InvalidAsset("TIFF strip count does not match strip offset count")
            })
            &&& o.value_count == n && n > 0 && !lists_numbers(c.entry_type) ==> (cloned_image(
                w,
                s,
                m,
                e,
            ) matches Err(err) && err == if tiled {
                Error::InvalidAsset("invalid TIFF tile")
            } else {
                Error::InvalidAsset("invalid TIFF strip")
            })
            &&& o.value_count == n && n > 0 && lists_numbers(c.entry_type) && width_of(c.entry_type)
                * n > c.value_bytes.len() ==> (cloned_image(w, s, m, e) matches Err(err) && err
                == Error::IoError)
        }),
{
    assert(has_chunks(m, tiled));
    assert(cloned_image(w, s, m, e) == cloned_chunks(w, s, m, e, tiled));
}

// Files.

/// Whether the values of an entry are there: in its value field, or in the file where it says.
pub open spec fn is_readable(s: Seq<u8>, entry: IfdEntry, e: Endianness, big: bool) -> bool {
    let width = width_of(entry.entry_type);
    let n = width * entry.value_count;
    let at = decoded_offset(entry.value_offset, e, big);
    &&& width != 0
    &&& n <= usize::MAX
    &&& n <= word_width(big) && width < 8 || at + n <= s.len()
}

/// Whether all that a directory says is there: the values of its entries, and the image that it
/// describes. The places of the image have to fit their list up to `limit`.
pub open spec fn is_there(
    s: Seq<u8>,
    entries: Map<u16, IfdEntry>,
    e: Endianness,
    big: bool,
    limit: int,
) -> bool {
    let m = cloned_entries(s, entries, e, big);
    &&& forall|t: u16| #[trigger]
        entries.contains_key(t) ==> is_readable(s, entries[t], e, big) && (!big
            ==> entries[t].value_count <= 0xffff_ffff)
    &&& forall|tiled: bool| #[trigger]
        has_image(m, tiled) ==> image_is_there(s, m, tiled, lowest_first(e)) && limit <= largest_of(
            m[offsets(tiled)].entry_type,
        )
    &&& !big ==> tags_in(m, 0x1_0000) <= 0xffff
}

/// The length of the image that a directory describes.
pub open spec fn image_size(m: Map<u16, ClonedModel>, low: bool) -> int {
    if has_image(m, false) {
        sum_of(m[279], m[279].value_count as int, low)
    } else if has_image(m, true) {
        sum_of(m[325], m[325].value_count as int, low)
    } else {
        0
    }
}

/// What a directory takes at most with all that it describes.
pub open spec fn size_of(s: Seq<u8>, entries: Map<u16, IfdEntry>, e: Endianness, big: bool) -> int {
    let m = cloned_entries(s, entries, e, big);
    image_size(m, lowest_first(e)) + directory_size(m)
}

/// What directories take at most with all that they describe.
pub open spec fn sizes_of(s: Seq<u8>, children: Seq<IfdModel>, e: Endianness, big: bool) -> int
    decreases children.len(),
{
    if children.len() == 0 {
        0
    } else {
        sizes_of(s, children.drop_last(), e, big) + size_of(s, children.last().entries, e, big)
    }
}

proof fn lemma_sum(c: ClonedModel, k: int, e: Endianness)
    requires
        k > 0 ==> lists_numbers(c.entry_type),
    ensures
        0 <= sum_of(c, k, lowest_first(e)),
    decreases k,
{
    if k > 0 {
        lemma_sum(c, k - 1, e);
        lemma_list(c, k - 1, e);
    }
}

/// What a directory describes can be copied, and its entries cloned.
proof fn lemma_can_be_copied(
    w: Seq<u8>,
    s: Seq<u8>,
    entries: Map<u16, IfdEntry>,
    e: Endianness,
    big: bool,
    limit: int,
)
    requires
        s.len() <= usize::MAX,
        is_there(s, entries, e, big, limit),
        w.len() + size_of(s, entries, e, big) <= limit,
    ensures
        entries_clone(s, entries, e, big),
        0 <= image_size(cloned_entries(s, entries, e, big), lowest_first(e)),
        ({
            let m = cloned_entries(s, entries, e, big);
            cloned_image(w, s, m, e) matches Ok((w1, m1)) && {
                &&& w1.len() == w.len() + image_size(m, lowest_first(e))
                &&& m1.dom() == m.dom()
                &&& length_of(m1, 0x1_0000) == length_of(m, 0x1_0000)
                &&& tags_in(m1, 0x1_0000) == tags_in(m, 0x1_0000)
                &&& forall|t: u16| #[trigger]
                    m1.contains_key(t) ==> (!big ==> m1[t].value_count <= 0xffff_ffff)
            }
        }),
{
    let m = cloned_entries(s, entries, e, big);
    let low = lowest_first(e);
    assert forall|t: u16| entries.contains_key(t) implies (#[trigger] cloned_value(
        s,
        entries[t],
        e,
        big,
    )) is Ok by {
        law_values_are_read(s, entries[t], e, big);
        assert(is_readable(s, entries[t], e, big));
        vstd::arithmetic::mul::lemma_mul_nonnegative(
            width_of(entries[t].entry_type),
            entries[t].value_count as int,
        );
    }
    lemma_sizes(m, 0x1_0000);
    if has_image(m, false) {
        lemma_sum(m[279], m[279].value_count as int, e);
        law_image_data_can_be_copied(w, s, m, e, false);
    } else if has_image(m, true) {
        lemma_sum(m[325], m[325].value_count as int, e);
        law_image_data_can_be_copied(w, s, m, e, true);
    } else {
        assert(!has_chunks(m, false) && !has_chunks(m, true));
    }
    lemma_cloned_image(w, s, m, e);
    let (w1, m1) = cloned_image(w, s, m, e)->Ok_0;
    assert forall|t: u16| #[trigger] m1.contains_key(t) implies (!big ==> m1[t].value_count
        <= 0xffff_ffff) by {
        assert(m1.dom().contains(t) <==> m.dom().contains(t));
        assert(entries.contains_key(t));
        assert(m1[t].value_count == m[t].value_count);
    }
}

proof fn lemma_child_can_be_cloned(
    w: Seq<u8>,
    s: Seq<u8>,
    entries: Map<u16, IfdEntry>,
    e: Endianness,
    big: bool,
    limit: int,
)
    requires
        s.len() <= usize::MAX,
        is_there(s, entries, e, big, limit),
        limit <= largest_place(big),
        w.len() + size_of(s, entries, e, big) <= limit,
    ensures
        cloned_child(w, s, entries, e, big) matches Some((w2, at)) && w2.len() <= w.len() + size_of(
            s,
            entries,
            e,
            big,
        ),
{
    reveal(cloned_child);
    lemma_can_be_copied(w, s, entries, e, big, limit);
    let m = cloned_entries(s, entries, e, big);
    let (w1, m1) = cloned_image(w, s, m, e)->Ok_0;
    lemma_sizes(m, 0x1_0000);
    law_directories_can_be_written(w1, m1, e, big);
}

proof fn lemma_children_can_be_cloned(
    w: Seq<u8>,
    s: Seq<u8>,
    children: Seq<IfdModel>,
    e: Endianness,
    big: bool,
    limit: int,
)
    requires
        s.len() <= usize::MAX,
        forall|i: int|
            0 <= i < children.len() ==> is_there(
                s,
                (#[trigger] children[i]).entries,
                e,
                big,
                limit,
            ),
        limit <= largest_place(big),
        w.len() + sizes_of(s, children, e, big) <= limit,
    ensures
        cloned_children(w, s, children, e, big) matches Some((w1, at)) && w1.len() <= w.len()
            + sizes_of(s, children, e, big),
    decreases children.len(),
{
    if children.len() > 0 {
        let less = children.drop_last();
        let last = children.last().entries;
        assert(is_there(s, children[children.len() - 1].entries, e, big, limit));
        assert forall|i: int| 0 <= i < less.len() implies is_there(
            s,
            (#[trigger] less[i]).entries,
            e,
            big,
            limit,
        ) by {
            assert(less[i] == children[i]);
        }
        let m = cloned_entries(s, last, e, big);
        lemma_sizes(m, 0x1_0000);
        assert(0 <= size_of(s, last, e, big)) by {
            if has_image(m, false) {
                lemma_sum(m[279], m[279].value_count as int, e);
            } else if has_image(m, true) {
                lemma_sum(m[325], m[325].value_count as int, e);
            }
        }
        lemma_children_can_be_cloned(w, s, less, e, big, limit);
        let (w0, at0) = cloned_children(w, s, less, e, big)->0;
        lemma_child_can_be_cloned(w0, s, last, e, big, limit);
    }
}

proof fn lemma_length_of_union(
    a: Map<u16, ClonedModel>,
    b: Map<u16, ClonedModel>,
    limit: int,
)
    ensures
        length_of(a.union_prefer_right(b), limit) <= length_of(a, limit) + length_of(b, limit),
        tags_in(a.union_prefer_right(b), limit) <= tags_in(a, limit) + tags_in(b, limit),
    decreases limit,
{
    if limit > 0 {
        lemma_length_of_union(a, b, limit - 1);
    }
}

proof fn lemma_length_of_insert(
    m: Map<u16, ClonedModel>,
    t: u16,
    c: ClonedModel,
    limit: int,
)
    requires
        m.contains_key(t),
        limit <= 0x1_0000,
    ensures
        length_of(m.insert(t, c), limit) <= length_of(m, limit) + c.value_bytes.len(),
        limit <= t ==> length_of(m.insert(t, c), limit) == length_of(m, limit),
        tags_in(m.insert(t, c), limit) == tags_in(m, limit),
    decreases limit,
{
    if limit > 0 {
        lemma_length_of_insert(m, t, c, limit - 1);
    }
}

proof fn lemma_places_bounded(
    children: Seq<IfdModel>,
    at: Seq<int>,
    ty: IfdType,
    most: int,
)
    requires
        at.len() == children.len(),
        forall|i: int| 0 <= i < at.len() ==> 0 <= #[trigger] at[i] <= most,
    ensures
        places_of(children, at, ty).len() <= children.len(),
        forall|i: int|
            0 <= i < places_of(children, at, ty).len() ==> 0 <= #[trigger] places_of(
                children,
                at,
                ty,
            )[i] <= most,
        places_of(children, at, ty).len() > 0 ==> exists|i: int|
            0 <= i < children.len() && (#[trigger] children[i]).ifd_type == ty,
    decreases children.len(),
{
    if children.len() > 0 {
        let less = children.drop_last();
        lemma_places_bounded(less, at.drop_last(), ty, most);
        assert(children.last() == children[children.len() - 1]);
        assert(at.last() == at[at.len() - 1]);
        if places_of(less, at.drop_last(), ty).len() > 0 {
            let i = choose|i: int| 0 <= i < less.len() && (#[trigger] less[i]).ifd_type == ty;
            assert(children[i] == less[i]);
        }
    }
}

/// The place of directories can be put under a tag that is there.
proof fn lemma_places_can_be_put(
    m: Map<u16, ClonedModel>,
    tag: u16,
    at: Seq<int>,
    e: Endianness,
    big: bool,
)
    requires
        at.len() > 0 ==> m.contains_key(tag),
        forall|i: int| 0 <= i < at.len() ==> 0 <= #[trigger] at[i] <= largest_place(big),
        !big ==> forall|t: u16| #[trigger] m.contains_key(t) ==> m[t].value_count <= 0xffff_ffff,
    ensures
        with_places(m, tag, at, e, big) matches Ok(m1) && {
            &&& m1.dom() == m.dom()
            &&& length_of(m1, 0x1_0000) <= length_of(m, 0x1_0000) + 8 * at.len()
            &&& tags_in(m1, 0x1_0000) == tags_in(m, 0x1_0000)
            &&& !big ==> forall|t: u16| #[trigger]
                m1.contains_key(t) ==> m1[t].value_count <= 0xffff_ffff
        },
{
    if at.len() > 0 {
        let c = ClonedModel { value_bytes: words_bytes(e, at, big), ..m[tag] };
        lemma_words_len(e, at, big);
        lemma_length_of_insert(m, tag, c, 0x1_0000);
        assert(m.insert(tag, c).dom() =~= m.dom());
    }
}

/// Whether directories hang off a page only under tags that the page has.
pub open spec fn hang_off(children: Seq<IfdModel>, page: Map<u16, IfdEntry>) -> bool {
    forall|i: int|
        0 <= i < children.len() ==> {
            let ty = (#[trigger] children[i]).ifd_type;
            &&& ty == IfdType::Subfile ==> page.contains_key(0x14a)
            &&& ty == IfdType::Exif ==> page.contains_key(0x8769)
            &&& ty == IfdType::Gps ==> page.contains_key(0x8825)
        }
}

#[verifier::spinoff_prover]
#[verifier::rlimit(30)]
proof fn lemma_page_can_be_cloned(
    s: Seq<u8>,
    page: Map<u16, IfdEntry>,
    children: Seq<IfdModel>,
    added: Map<u16, ClonedModel>,
    e: Endianness,
    big: bool,
    limit: int,
)
    requires
        s.len() <= usize::MAX,
        limit <= largest_place(big),
        is_there(s, page, e, big, limit),
        forall|i: int|
            0 <= i < children.len() ==> is_there(
                s,
                (#[trigger] children[i]).entries,
                e,
                big,
                limit,
            ),
        hang_off(children, page),
        !big ==> forall|t: u16| #[trigger]
            added.contains_key(t) ==> added[t].value_count <= 0xffff_ffff,
        !big ==> tags_in(cloned_entries(s, page, e, big), 0x1_0000) + tags_in(added, 0x1_0000)
            <= 0xffff,
        16 + sizes_of(s, children, e, big) + size_of(s, page, e, big) + directory_size(added) + 24
            * children.len() <= limit,
    ensures
        cloned_tiff(blank_header(e, big), s, page, children, added, e, big) is Some,
{
    let h = blank_header(e, big);
    let m = cloned_entries(s, page, e, big);
    lemma_sizes(m, 0x1_0000);
    lemma_sizes(added, 0x1_0000);
    assert(0 <= size_of(s, page, e, big)) by {
        if has_image(m, false) {
            lemma_sum(m[279], m[279].value_count as int, e);
        } else if has_image(m, true) {
            lemma_sum(m[325], m[325].value_count as int, e);
        }
    }
    lemma_children_can_be_cloned(h, s, children, e, big, limit);
    lemma_cloned_children(h, s, children, e, big);
    let (wc, at) = cloned_children(h, s, children, e, big)->0;
    lemma_can_be_copied(wc, s, page, e, big, limit);
    let (wi, image) = cloned_image(wc, s, m, e)->Ok_0;
    let base = image.union_prefer_right(added);
    lemma_length_of_union(image, added, 0x1_0000);
    assert forall|t: u16| #[trigger] base.contains_key(t) && !big implies base[t].value_count
        <= 0xffff_ffff by {
        assert(added.contains_key(t) || image.contains_key(t));
    }
    assert forall|t: u16| page.contains_key(t) implies #[trigger] base.contains_key(t) by {
        assert(m.dom().contains(t));
        assert(image.dom().contains(t));
    }
    let subfiles = places_of(children, at, IfdType::Subfile);
    let exif = places_of(children, at, IfdType::Exif);
    let gps = places_of(children, at, IfdType::Gps);
    lemma_places_bounded(children, at, IfdType::Subfile, limit);
    lemma_places_bounded(children, at, IfdType::Exif, limit);
    lemma_places_bounded(children, at, IfdType::Gps, limit);
    lemma_places_can_be_put(base, 0x14a, subfiles, e, big);
    let m1 = with_places(base, 0x14a, subfiles, e, big)->Ok_0;
    assert(base.dom().contains(0x8769) ==> m1.dom().contains(0x8769));
    lemma_places_can_be_put(m1, 0x8769, exif, e, big);
    let m2 = with_places(m1, 0x8769, exif, e, big)->Ok_0;
    assert(base.dom().contains(0x8825) ==> m2.dom().contains(0x8825));
    lemma_places_can_be_put(m2, 0x8825, gps, e, big);
    let m3 = with_places(m2, 0x8825, gps, e, big)->Ok_0;
    assert(with_child_places(base, children, at, e, big) == Ok::<Map<u16, ClonedModel>, Error>(m3));
    lemma_sizes(m3, 0x1_0000);
    law_directories_can_be_written(wi, m3, e, big);
}

/// A file can be cloned, with tags given to the clone, wherever all that its directories say is
/// there and the clone is not too long for its places. The length is that of the header, of the
/// directories with all that they describe, of the given tags and of the lists of the places of
/// directories.
pub proof fn law_files_can_be_cloned(
    s: Seq<u8>,
    m: TiffModel,
    added: Map<u16, ClonedModel>,
    limit: int,
)
    requires
        s.len() <= usize::MAX,
        parse_tiff(s) == Ok::<TiffModel, Error>(m),
        limit <= largest_place(m.big_tiff),
        is_there(s, m.page.entries, m.byte_order, m.big_tiff, limit),
        forall|i: int|
            0 <= i < m.children.len() ==> is_there(
                s,
                (#[trigger] m.children[i]).entries,
                m.byte_order,
                m.big_tiff,
                limit,
            ),
        !m.big_tiff ==> forall|t: u16| #[trigger]
            added.contains_key(t) ==> added[t].value_count <= 0xffff_ffff,
        !m.big_tiff ==> tags_in(
            cloned_entries(s, m.page.entries, m.byte_order, m.big_tiff),
            0x1_0000,
        ) + tags_in(added, 0x1_0000) <= 0xffff,
        16 + sizes_of(s, m.children, m.byte_order, m.big_tiff) + size_of(
            s,
            m.page.entries,
            m.byte_order,
            m.big_tiff,
        ) + directory_size(added) + 24 * m.children.len() <= limit,
    ensures
        clone_with(s, added) is Some,
{
    law_files_are_read(s);
    let e = m.byte_order;
    let big = m.big_tiff;
    assert(hang_off(m.children, m.page.entries)) by {
        let entries = m.page.entries;
        let exif = subfiles(entries);
        assert forall|i: int| 0 <= i < m.children.len() implies {
            let ty = (#[trigger] m.children[i]).ifd_type;
            &&& ty == IfdType::Subfile ==> entries.contains_key(0x14a)
            &&& ty == IfdType::Exif ==> entries.contains_key(0x8769)
            &&& ty == IfdType::Gps ==> entries.contains_key(0x8825)
        } by {
            if i < exif {
                assert(m.children[i].ifd_type == IfdType::Subfile);
            }
        }
    }
    lemma_page_can_be_cloned(s, m.page.entries, m.children, added, e, big, limit);
}

} // verus!
