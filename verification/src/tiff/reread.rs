//! What a clone reads back as.

use vstd::prelude::*;

use crate::endian::{
    lemma_u16_round_trip, lemma_u32_round_trip, u16_bytes, u32_bytes, u64_bytes, Endianness,
};
use crate::error::Error;
use crate::tiff::directory::{
    ifd_at, ifd_end, ifd_fits, offset_width, order_mark, parse_header, value_field, word_at, Header,
    IfdEntry, IfdModel, IfdType, EXIFIFD_TAG, GPSIFD_TAG, SUBFILE_TAG,
};
use crate::tiff::layout::{
    blank_header, cloned_children, cloned_entries, cloned_image, cloned_page, cloned_tiff,
    header_slot, inline_field, patched, places_of, with_child_places, word_bytes, word_max,
    words_bytes, written_ifd, ClonedModel,
};
use crate::tiff::lemmas::{
    agree, all_apart, field_of, holds_value, lemma_cloned_children, lemma_cloned_image,
    lemma_ifd_agree, lemma_word_agree, lemma_word_round_trip, lemma_written_ifd, stores,
};
use crate::tiff::map::{
    child_ifds, ifds_at, parse_tiff, subfile_ifds, subfile_offsets, tagged_ifd, u32s_at, TiffModel,
};

verus! {

broadcast use crate::endian::group_widths;

proof fn lemma_places_concat(
    a: Seq<IfdModel>,
    b: Seq<IfdModel>,
    at_a: Seq<int>,
    at_b: Seq<int>,
    ty: IfdType,
)
    requires
        a.len() == at_a.len(),
        b.len() == at_b.len(),
    ensures
        places_of(a + b, at_a + at_b, ty) == places_of(a, at_a, ty) + places_of(b, at_b, ty),
    decreases b.len(),
{
    if b.len() == 0 {
        assert(a + b =~= a);
        assert(at_a + at_b =~= at_a);
        assert(places_of(a, at_a, ty) + places_of(b, at_b, ty) =~= places_of(a, at_a, ty));
    } else {
        let b1 = b.drop_last();
        let at_b1 = at_b.drop_last();
        lemma_places_concat(a, b1, at_a, at_b1, ty);
        assert((a + b).drop_last() =~= a + b1);
        assert((at_a + at_b).drop_last() =~= at_a + at_b1);
        assert((a + b).last() == b.last());
        assert((at_a + at_b).last() == at_b.last());
        assert(places_of(a + b, at_a + at_b, ty) =~= places_of(a, at_a, ty) + places_of(
            b,
            at_b,
            ty,
        ));
    }
}

proof fn lemma_places_uniform(children: Seq<IfdModel>, at: Seq<int>, own: IfdType, ty: IfdType)
    requires
        children.len() == at.len(),
        forall|i: int| 0 <= i < children.len() ==> (#[trigger] children[i]).ifd_type == own,
    ensures
        places_of(children, at, ty) == (if own == ty {
            at
        } else {
            Seq::empty()
        }),
    decreases children.len(),
{
    if children.len() > 0 {
        assert(children.last().ifd_type == own);
        lemma_places_uniform(children.drop_last(), at.drop_last(), own, ty);
        assert(at.drop_last().push(at.last()) =~= at);
    } else {
        assert(at =~= Seq::empty());
    }
}

/// The directories of each kind are put where their kind is listed.
pub proof fn lemma_places(
    subfiles: Seq<IfdModel>,
    exif: Seq<IfdModel>,
    gps: Seq<IfdModel>,
    at: Seq<int>,
)
    requires
        at.len() == subfiles.len() + exif.len() + gps.len(),
        forall|i: int|
            0 <= i < subfiles.len() ==> (#[trigger] subfiles[i]).ifd_type == IfdType::Subfile,
        forall|i: int| 0 <= i < exif.len() ==> (#[trigger] exif[i]).ifd_type == IfdType::Exif,
        forall|i: int| 0 <= i < gps.len() ==> (#[trigger] gps[i]).ifd_type == IfdType::Gps,
    ensures
        ({
            let all = subfiles + exif + gps;
            let n1 = subfiles.len() as int;
            let n2 = n1 + exif.len();
            let n3 = n2 + gps.len();
            &&& places_of(all, at, IfdType::Subfile) == at.subrange(0, n1)
            &&& places_of(all, at, IfdType::Exif) == at.subrange(n1, n2)
            &&& places_of(all, at, IfdType::Gps) == at.subrange(n2, n3)
        }),
{
    let n1 = subfiles.len() as int;
    let n2 = n1 + exif.len();
    let n3 = n2 + gps.len();
    let a = at.subrange(0, n1);
    let b = at.subrange(n1, n2);
    let c = at.subrange(n2, n3);
    assert(a + b + c =~= at);
    let all = subfiles + exif + gps;
    assert forall|ty: IfdType| #[trigger] places_of(all, at, ty) == places_of(subfiles, a, ty)
        + places_of(exif, b, ty) + places_of(gps, c, ty) by {
        lemma_places_concat(subfiles, exif, a, b, ty);
        lemma_places_concat(subfiles + exif, gps, a + b, c, ty);
    }
    assert forall|ty: IfdType| true implies {
        &&& #[trigger] places_of(subfiles, a, ty) == (if ty == IfdType::Subfile {
            a
        } else {
            Seq::empty()
        })
        &&& places_of(exif, b, ty) == (if ty == IfdType::Exif {
            b
        } else {
            Seq::empty()
        })
        &&& places_of(gps, c, ty) == (if ty == IfdType::Gps {
            c
        } else {
            Seq::empty()
        })
    } by {
        lemma_places_uniform(subfiles, a, IfdType::Subfile, ty);
        lemma_places_uniform(exif, b, IfdType::Exif, ty);
        lemma_places_uniform(gps, c, IfdType::Gps, ty);
    }
    assert(places_of(all, at, IfdType::Subfile) =~= a);
    assert(places_of(all, at, IfdType::Exif) =~= b);
    assert(places_of(all, at, IfdType::Gps) =~= c);
}

/// Offsets that stand one after the other are read back.
pub proof fn lemma_words_at(e: Endianness, s: Seq<u8>, p: int, vs: Seq<int>)
    requires
        0 <= p,
        p + 4 * vs.len() <= s.len(),
        s.subrange(p, p + 4 * vs.len()) == words_bytes(e, vs, false),
        forall|i: int| 0 <= i < vs.len() ==> 0 <= #[trigger] vs[i] <= u32::MAX,
    ensures
        u32s_at(e, s, p, vs.len() as int) == vs,
    decreases vs.len(),
{
    lemma_words_len(e, vs, false);
    if vs.len() > 0 {
        let less = vs.drop_last();
        let n = less.len() as int;
        let all = words_bytes(e, vs, false);
        lemma_words_len(e, less, false);
        assert(s.subrange(p, p + 4 * n) =~= all.subrange(0, 4 * n));
        assert(all.subrange(0, 4 * n) =~= words_bytes(e, less, false));
        lemma_words_at(e, s, p, less);
        assert(s.subrange(p + 4 * n, p + 4 * n + 4) =~= all.subrange(4 * n, 4 * n + 4));
        assert(all.subrange(4 * n, 4 * n + 4) =~= u32_bytes(e, vs.last()));
        lemma_u32_round_trip(e, s, p + 4 * n, vs.last());
        assert forall|i: int| 0 <= i < vs.len() implies u32s_at(e, s, p, vs.len() as int)[i]
            == vs[i] by {
            if i < n {
                assert(u32s_at(e, s, p, n)[i] == less[i]);
            }
        }
    }
    assert(u32s_at(e, s, p, vs.len() as int) =~= vs);
}

pub proof fn lemma_words_len(e: Endianness, vs: Seq<int>, big: bool)
    ensures
        words_bytes(e, vs, big).len() == (if big {
            8 * vs.len()
        } else {
            4 * vs.len()
        }),
    decreases vs.len(),
{
    if vs.len() > 0 {
        lemma_words_len(e, vs.drop_last(), big);
    }
}

/// A header whose slot was filled reads back as what was put there.
proof fn lemma_header(out: Seq<u8>, w: Seq<u8>, e: Endianness, big: bool, at: int)
    requires
        0 <= at <= word_max(big),
        w.len() >= header_slot(big) + offset_width(big),
        w.subrange(0, header_slot(big) + offset_width(big)) == blank_header(e, big),
        out.len() >= w.len(),
        out.subrange(0, w.len() as int) == patched(w, header_slot(big), word_bytes(e, at, big)),
    ensures
        parse_header(out) == Ok::<Header, Error>(
            Header { byte_order: e, big_tiff: big, first_ifd_offset: at as u64 },
        ),
{
    let slot = header_slot(big);
    let ow = offset_width(big);
    let head = w.subrange(0, slot + ow);
    let b = blank_header(e, big);
    assert(b.len() == slot + ow);
    let p = patched(w, slot, word_bytes(e, at, big));
    assert forall|i: int| 0 <= i < slot implies #[trigger] out[i] == b[i] by {
        assert(out.subrange(0, w.len() as int)[i] == p[i]);
        assert(head[i] == w[i]);
    }
    assert(out.subrange(slot, slot + ow) =~= word_bytes(e, at, big)) by {
        assert forall|i: int| 0 <= i < ow implies out[slot + i] == word_bytes(e, at, big)[i] by {
            assert(out.subrange(0, w.len() as int)[slot + i] == p[slot + i]);
        }
    }
    lemma_word_round_trip(e, out, slot, at, big);
    assert(out[0] == b[0] && out[1] == b[1]);
    assert(order_mark(out) == Some(e));
    if big {
        assert(out.subrange(2, 4) =~= u16_bytes(e, 43));
        lemma_u16_round_trip(e, out, 2, 43);
        assert(out.subrange(4, 6) =~= u16_bytes(e, 8));
        lemma_u16_round_trip(e, out, 4, 8);
        assert(out.subrange(6, 8) =~= u16_bytes(e, 0));
        lemma_u16_round_trip(e, out, 6, 0);
    } else {
        assert(out.subrange(2, 4) =~= u16_bytes(e, 42));
        lemma_u16_round_trip(e, out, 2, 42);
    }
}

/// What a directory stores depends on its values' bytes alone.
pub proof fn lemma_stores_agree(
    entries: Map<u16, IfdEntry>,
    m: Map<u16, ClonedModel>,
    a: Seq<u8>,
    b: Seq<u8>,
    lo: int,
    hi: int,
    e: Endianness,
    big: bool,
)
    requires
        stores(entries, m, a, lo, hi, e, big),
        0 <= lo,
        a.len() <= b.len(),
        agree(a, b, lo, hi),
    ensures
        stores(entries, m, b, lo, hi, e, big),
{
    assert forall|t: u16| #[trigger] m.contains_key(t) implies {
        &&& entries[t].entry_tag == t
        &&& entries[t].entry_type == m[t].entry_type
        &&& entries[t].value_count == m[t].value_count
        &&& holds_value(b, lo, hi, m[t], field_of(entries[t], big), e, big)
    } by {
        let v = m[t].value_bytes;
        let field = field_of(entries[t], big);
        if v.len() > offset_width(big) {
            let o = word_at(e, field, 0, big);
            assert(b.subrange(o, o + v.len()) =~= a.subrange(o, o + v.len()));
        }
    }
}

/// The page of a clone, and where it is.
pub open spec fn page_place(
    s: Seq<u8>,
    page: Map<u16, IfdEntry>,
    children: Seq<IfdModel>,
    added: Map<u16, ClonedModel>,
    e: Endianness,
    big: bool,
) -> int {
    let (w1, m) = cloned_page(blank_header(e, big), s, page, children, added, e, big)->0;
    let (w2, at) = written_ifd(w1, m, e, big)->0;
    at
}

/// The tags of the page of a clone.
pub open spec fn page_tags(
    s: Seq<u8>,
    page: Map<u16, IfdEntry>,
    children: Seq<IfdModel>,
    added: Map<u16, ClonedModel>,
    e: Endianness,
    big: bool,
) -> Map<u16, ClonedModel> {
    let (w1, m) = cloned_page(blank_header(e, big), s, page, children, added, e, big)->0;
    m
}

/// What stands before the values of the page of a clone.
pub open spec fn before_page(
    s: Seq<u8>,
    page: Map<u16, IfdEntry>,
    children: Seq<IfdModel>,
    added: Map<u16, ClonedModel>,
    e: Endianness,
    big: bool,
) -> Seq<u8> {
    let (w1, m) = cloned_page(blank_header(e, big), s, page, children, added, e, big)->0;
    w1
}

/// A clone starts with its header, and its page reads back as what was written.
#[verifier::spinoff_prover]
#[verifier::rlimit(30)]
pub proof fn lemma_clone_page(
    s: Seq<u8>,
    page: Map<u16, IfdEntry>,
    children: Seq<IfdModel>,
    added: Map<u16, ClonedModel>,
    e: Endianness,
    big: bool,
)
    requires
        cloned_tiff(blank_header(e, big), s, page, children, added, e, big) is Some,
    ensures
        ({
            let out = cloned_tiff(blank_header(e, big), s, page, children, added, e, big)->0;
            let at = page_place(s, page, children, added, e, big);
            let w1 = before_page(s, page, children, added, e, big);
            let m = page_tags(s, page, children, added, e, big);
            &&& cloned_page(blank_header(e, big), s, page, children, added, e, big) is Some
            &&& header_slot(big) + offset_width(big) <= w1.len() <= at <= word_max(big)
            &&& at <= out.len()
            &&& agree(w1, out, header_slot(big) + offset_width(big), w1.len() as int)
            &&& parse_header(out) == Ok::<Header, Error>(
                Header { byte_order: e, big_tiff: big, first_ifd_offset: at as u64 },
            )
            &&& ifd_fits(out, at, e, big)
            &&& ifd_end(out, at, e, big) == out.len()
            &&& stores(
                ifd_at(out, at, e, big, IfdType::Page).entries,
                m,
                out,
                w1.len() as int,
                at,
                e,
                big,
            )
            &&& all_apart(ifd_at(out, at, e, big, IfdType::Page).entries, m, e, big)
        }),
{
    let h = blank_header(e, big);
    let hl = header_slot(big) + offset_width(big);
    assert(h.len() == hl);
    let out = cloned_tiff(h, s, page, children, added, e, big)->0;
    let (w1, m) = cloned_page(h, s, page, children, added, e, big)->0;
    let (w2, at) = written_ifd(w1, m, e, big)->0;
    // the header is kept
    lemma_cloned_children(h, s, children, e, big);
    let (wc, places) = cloned_children(h, s, children, e, big)->0;
    lemma_cloned_image(wc, s, cloned_entries(s, page, e, big), e);
    lemma_written_ifd(w1, m, e, big, IfdType::Page);
    let full = w2 + word_bytes(e, 0, big);
    assert forall|i: int| 0 <= i < hl implies #[trigger] w2[i] == h[i] by {
        assert(w2.subrange(0, w1.len() as int)[i] == w1[i]);
        assert(w1.subrange(0, wc.len() as int)[i] == wc[i]);
        assert(wc.subrange(0, h.len() as int)[i] == h[i]);
    }
    assert(w2.subrange(0, hl) =~= h);
    let p = patched(w2, header_slot(big), word_bytes(e, at, big));
    assert(p.len() == w2.len());
    assert(out =~= p + word_bytes(e, 0, big));
    assert(out.subrange(0, w2.len() as int) =~= p);
    lemma_header(out, w2, e, big, at);
    assert forall|i: int| hl <= i < full.len() implies #[trigger] full[i] == out[i] by {
        if i < w2.len() {
            assert(p[i] == w2[i]);
        }
    }
    assert forall|i: int| hl <= i < w1.len() implies #[trigger] w1[i] == out[i] by {
        assert(w2.subrange(0, w1.len() as int)[i] == w1[i]);
        assert(full[i] == out[i]);
    }
    lemma_ifd_agree(full, out, at, e, big, IfdType::Page);
    lemma_stores_agree(
        ifd_at(full, at, e, big, IfdType::Page).entries,
        m,
        full,
        out,
        w1.len() as int,
        at,
        e,
        big,
    );
}

/// Whether directories hang off the entry for `t`.
pub open spec fn is_child_tag(t: u16) -> bool {
    t == SUBFILE_TAG || t == EXIFIFD_TAG || t == GPSIFD_TAG
}

/// The page of a clone, where the clone's directories can be read, is the last directory.
pub proof fn lemma_page_of_clone(
    s: Seq<u8>,
    page: Map<u16, IfdEntry>,
    children: Seq<IfdModel>,
    added: Map<u16, ClonedModel>,
    e: Endianness,
    big: bool,
    out: Seq<u8>,
)
    requires
        cloned_tiff(blank_header(e, big), s, page, children, added, e, big) == Some(out),
    ensures
        parse_tiff(out) matches Ok(m2) ==> {
            &&& m2.byte_order == e
            &&& m2.big_tiff == big
            &&& m2.page == ifd_at(
                out,
                page_place(s, page, children, added, e, big),
                e,
                big,
                IfdType::Page,
            )
            &&& m2.page.next_ifd_offset is None
        },
{
    lemma_clone_page(s, page, children, added, e, big);
    let at = page_place(s, page, children, added, e, big);
    assert(at as u64 == at);
    let end = out.len() - offset_width(big);
    assert(out.subrange(end, end + offset_width(big)) =~= word_bytes(e, 0, big));
    lemma_word_round_trip(e, out, end, 0, big);
}

/// The page of a clone has the source's tags and those added, with the types and counts of the
/// added ones where there are both.
#[verifier::spinoff_prover]
#[verifier::rlimit(30)]
pub proof fn lemma_clone_tags(
    s: Seq<u8>,
    page: Map<u16, IfdEntry>,
    children: Seq<IfdModel>,
    added: Map<u16, ClonedModel>,
    e: Endianness,
    big: bool,
)
    requires
        cloned_tiff(blank_header(e, big), s, page, children, added, e, big) is Some,
    ensures
        ({
            let tags = page_tags(s, page, children, added, e, big);
            &&& tags.dom() == page.dom().union(added.dom())
            &&& forall|t: u16| #[trigger]
                added.contains_key(t) ==> tags[t].entry_type == added[t].entry_type
                    && tags[t].value_count == added[t].value_count
            &&& forall|t: u16| #[trigger]
                page.contains_key(t) && !added.contains_key(t) ==> tags[t].entry_type
                    == page[t].entry_type && tags[t].value_count == page[t].value_count
        }),
{
    let h = blank_header(e, big);
    let (wc, places) = cloned_children(h, s, children, e, big)->0;
    let cloned = cloned_entries(s, page, e, big);
    lemma_cloned_image(wc, s, cloned, e);
    let (wi, image) = cloned_image(wc, s, cloned, e)->Ok_0;
    let base = image.union_prefer_right(added);
    lemma_child_places(base, children, places, e, big);
    let tags = page_tags(s, page, children, added, e, big);
    assert(cloned.dom() =~= page.dom());
    assert(base.dom() =~= page.dom().union(added.dom()));
    assert forall|t: u16| #[trigger] base.contains_key(t) implies tags[t].entry_type
        == base[t].entry_type && tags[t].value_count == base[t].value_count by {}
    assert forall|t: u16| #[trigger] added.contains_key(t) implies tags[t].entry_type
        == added[t].entry_type && tags[t].value_count == added[t].value_count by {
        assert(base.contains_key(t));
    }
    assert forall|t: u16| #[trigger]
        page.contains_key(t) && !added.contains_key(t) implies tags[t].entry_type
        == page[t].entry_type && tags[t].value_count == page[t].value_count by {
        assert(cloned.contains_key(t));
        assert(image.dom().contains(t));
        assert(base.contains_key(t));
        assert(image[t].value_count == cloned[t].value_count);
    }
}

/// An added tag keeps its value, unless directories of the source hang off it.
pub proof fn lemma_added_value(
    s: Seq<u8>,
    m: TiffModel,
    page: Map<u16, IfdEntry>,
    added: Map<u16, ClonedModel>,
    t: u16,
)
    requires
        parse_tiff(s) == Ok::<TiffModel, Error>(m),
        cloned_tiff(
            blank_header(m.byte_order, m.big_tiff),
            s,
            page,
            m.children,
            added,
            m.byte_order,
            m.big_tiff,
        ) is Some,
        added.contains_key(t),
        !(is_child_tag(t) && m.page.entries.contains_key(t)),
    ensures
        page_tags(s, page, m.children, added, m.byte_order, m.big_tiff)[t] == added[t],
{
    let e = m.byte_order;
    let big = m.big_tiff;
    let h = blank_header(e, big);
    lemma_child_kinds(s, m);
    let a = subfile_ifds(s, m.page.entries, e, big)->Ok_0;
    let b = tagged_ifd(s, m.page.entries, EXIFIFD_TAG, e, big, IfdType::Exif)->Ok_0;
    let c = tagged_ifd(s, m.page.entries, GPSIFD_TAG, e, big, IfdType::Gps)->Ok_0;
    lemma_cloned_children(h, s, m.children, e, big);
    let (wc, places) = cloned_children(h, s, m.children, e, big)->0;
    lemma_places(a, b, c, places);
    let (wi, image) = cloned_image(wc, s, cloned_entries(s, page, e, big), e)->Ok_0;
    let base = image.union_prefer_right(added);
    lemma_child_places(base, m.children, places, e, big);
    let tags = page_tags(s, page, m.children, added, e, big);
    assert(tags[t] == base[t]);
    assert(base[t] == added[t]);
}

/// The number of subfile directories of a file.
pub open spec fn subfile_count(m: TiffModel) -> int {
    if m.page.entries.contains_key(SUBFILE_TAG) {
        m.page.entries[SUBFILE_TAG].value_count as int
    } else {
        0
    }
}

/// Whether the subfile directories of the clone `out` of a file are found again. In a BigTIFF file
/// their places are written as 64-bit and read as 32-bit integers.
pub open spec fn finds_subfiles(m: TiffModel, out: Seq<u8>) -> bool {
    ||| !m.big_tiff
    ||| subfile_count(m) == 0
    ||| m.byte_order == Endianness::Little && subfile_count(m) == 1 && out.len() <= 0x1_0000_0000
}

/// Whether `page` has the entries of the page of `m` that other directories hang off.
pub open spec fn same_children(page: Map<u16, IfdEntry>, m: TiffModel) -> bool {
    forall|t: u16|
        t == SUBFILE_TAG || t == EXIFIFD_TAG || t == GPSIFD_TAG ==> (#[trigger] page.contains_key(
            t,
        ) <==> m.page.entries.contains_key(t)) && page[t] == m.page.entries[t]
}

/// Whether no other directories hang off the entries `added`.
pub open spec fn no_children(added: Map<u16, ClonedModel>) -> bool {
    !added.contains_key(SUBFILE_TAG) && !added.contains_key(EXIFIFD_TAG) && !added.contains_key(
        GPSIFD_TAG,
    )
}

/// The kinds of directories that hang off the page of a file, in order.
proof fn lemma_child_kinds(s: Seq<u8>, m: TiffModel)
    requires
        parse_tiff(s) == Ok::<TiffModel, Error>(m),
    ensures
        ({
            let e = m.byte_order;
            let big = m.big_tiff;
            let entries = m.page.entries;
            let a = subfile_ifds(s, entries, e, big)->Ok_0;
            let b = tagged_ifd(s, entries, EXIFIFD_TAG, e, big, IfdType::Exif)->Ok_0;
            let c = tagged_ifd(s, entries, GPSIFD_TAG, e, big, IfdType::Gps)->Ok_0;
            &&& m.children == a + b + c
            &&& a.len() == subfile_count(m)
            &&& b.len() == (if entries.contains_key(EXIFIFD_TAG) {
                1int
            } else {
                0
            })
            &&& c.len() == (if entries.contains_key(GPSIFD_TAG) {
                1int
            } else {
                0
            })
            &&& forall|i: int|
                0 <= i < a.len() ==> (#[trigger] a[i]).ifd_type == IfdType::Subfile
            &&& forall|i: int| 0 <= i < b.len() ==> (#[trigger] b[i]).ifd_type == IfdType::Exif
            &&& forall|i: int| 0 <= i < c.len() ==> (#[trigger] c[i]).ifd_type == IfdType::Gps
            &&& 4 * subfile_count(m) <= u64::MAX
            &&& 4 * subfile_count(m) <= usize::MAX
        }),
{
}

/// Where the one directory that an entry points to is found, it is found again in the clone.
proof fn lemma_tagged_again(
    out: Seq<u8>,
    entries: Map<u16, IfdEntry>,
    m: Map<u16, ClonedModel>,
    lo: int,
    hi: int,
    tag: u16,
    place: int,
    e: Endianness,
    big: bool,
    ty: IfdType,
)
    requires
        stores(entries, m, out, lo, hi, e, big),
        m.contains_key(tag),
        0 <= place <= word_max(big),
        m[tag].value_bytes == words_bytes(e, seq![place], big),
        ifd_fits(out, place, e, big),
    ensures
        tagged_ifd(out, entries, tag, e, big, ty) == Ok::<Seq<IfdModel>, Error>(
            seq![ifd_at(out, place, e, big, ty)],
        ),
{
    let ow = offset_width(big);
    let v = m[tag].value_bytes;
    reveal_with_fuel(words_bytes, 2);
    assert(seq![place].drop_last() =~= Seq::empty());
    assert(v =~= word_bytes(e, place, big));
    let field = field_of(entries[tag], big);
    assert(holds_value(out, lo, hi, m[tag], field, e, big));
    assert(inline_field(v, big) =~= v);
    let all = value_field(entries[tag].value_offset);
    assert(all.subrange(0, ow) =~= field);
    lemma_word_round_trip(e, all, 0, place, big);
    assert(entries.contains_key(tag)) by {
        assert(entries.dom().contains(tag));
    }
}

/// Where the subfile directories are listed, they are found again in the clone.
proof fn lemma_subfiles_again(
    out: Seq<u8>,
    entries: Map<u16, IfdEntry>,
    m: Map<u16, ClonedModel>,
    lo: int,
    hi: int,
    places: Seq<int>,
    e: Endianness,
    big: bool,
)
    requires
        stores(entries, m, out, lo, hi, e, big),
        0 <= lo,
        m.contains_key(SUBFILE_TAG),
        m[SUBFILE_TAG].value_count == places.len(),
        4 * places.len() <= u64::MAX,
        4 * places.len() <= usize::MAX,
        places.len() > 0 ==> m[SUBFILE_TAG].value_bytes == words_bytes(e, places, big),
        forall|i: int|
            0 <= i < places.len() ==> 0 <= #[trigger] places[i] <= word_max(big) && ifd_fits(
                out,
                places[i],
                e,
                big,
            ),
        big && places.len() > 0 ==> e == Endianness::Little && places.len() == 1 && places[0]
            <= u32::MAX,
    ensures
        subfile_ifds(out, entries, e, big) == Ok::<Seq<IfdModel>, Error>(
            ifds_at(out, places, e, big, IfdType::Subfile),
        ),
{
    let ow = offset_width(big);
    let n = places.len() as int;
    let entry = entries[SUBFILE_TAG];
    let v = m[SUBFILE_TAG].value_bytes;
    let field = field_of(entry, big);
    assert(holds_value(out, lo, hi, m[SUBFILE_TAG], field, e, big));
    let all = value_field(entry.value_offset);
    assert(all.take(ow) == field);
    let offsets = subfile_offsets(out, entry, e, big);
    lemma_words_len(e, places, big);
    if n == 0 {
        assert(u32s_at(e, all, 0, 0) =~= places);
        assert(offsets == Ok::<Seq<int>, Error>(places));
    } else if big {
        assert(places =~= seq![places[0]]);
        reveal_with_fuel(words_bytes, 2);
        assert(places.drop_last() =~= Seq::empty());
        assert(v =~= u64_bytes(e, places[0]));
        assert(inline_field(v, big) =~= v);
        reveal(u64_bytes);
        assert(places[0] % 0x1_0000_0000 == places[0]);
        assert(all.subrange(0, 4) =~= u32_bytes(e, places[0])) by {
            assert forall|i: int| 0 <= i < 4 implies all[i] == u32_bytes(e, places[0])[i] by {
                assert(all.take(ow)[i] == v[i]);
            }
        }
        lemma_u32_round_trip(e, all, 0, places[0]);
        assert(u32s_at(e, all, 0, 1) =~= places);
        assert(offsets == Ok::<Seq<int>, Error>(places));
    } else if n == 1 {
        assert(inline_field(v, big) =~= v);
        assert(all.subrange(0, 4) =~= words_bytes(e, places, false));
        lemma_words_at(e, all, 0, places);
        assert(offsets == Ok::<Seq<int>, Error>(places));
    } else {
        let o = word_at(e, field, 0, big);
        assert(out.subrange(o, o + 4 * n) == words_bytes(e, places, false));
        lemma_words_at(e, out, o, places);
        assert forall|i: int| 0 <= i < ow implies #[trigger] all[0 + i] == field[0 + i] by {
            assert(all.take(ow)[i] == field[i]);
        }
        lemma_word_agree(e, all, 0, field, 0, big);
        assert(offsets == Ok::<Seq<int>, Error>(places));
    }
    assert(entries.contains_key(SUBFILE_TAG)) by {
        assert(entries.dom().contains(SUBFILE_TAG));
    }
}

/// Whether the value of `tag` lists `places`, where there are any.
pub open spec fn lists(
    tags: Map<u16, ClonedModel>,
    base: Map<u16, ClonedModel>,
    tag: u16,
    places: Seq<int>,
    e: Endianness,
    big: bool,
) -> bool {
    if places.len() == 0 {
        tags[tag] == base[tag]
    } else {
        &&& tags.contains_key(tag)
        &&& tags[tag] == (ClonedModel { value_bytes: words_bytes(e, places, big), ..base[tag] })
        &&& forall|i: int| 0 <= i < places.len() ==> #[trigger] places[i] <= word_max(big)
    }
}

/// Only the three values that list directories are replaced.
pub proof fn lemma_child_places(
    base: Map<u16, ClonedModel>,
    children: Seq<IfdModel>,
    at: Seq<int>,
    e: Endianness,
    big: bool,
)
    requires
        with_child_places(base, children, at, e, big) is Ok,
    ensures
        ({
            let tags = with_child_places(base, children, at, e, big)->Ok_0;
            &&& tags.dom() == base.dom()
            &&& forall|t: u16|
                t != SUBFILE_TAG && t != EXIFIFD_TAG && t != GPSIFD_TAG ==> #[trigger] tags[t]
                    == base[t]
            &&& lists(
                tags,
                base,
                SUBFILE_TAG,
                places_of(children, at, IfdType::Subfile),
                e,
                big,
            )
            &&& lists(tags, base, EXIFIFD_TAG, places_of(children, at, IfdType::Exif), e, big)
            &&& lists(tags, base, GPSIFD_TAG, places_of(children, at, IfdType::Gps), e, big)
        }),
{
    let tags = with_child_places(base, children, at, e, big)->Ok_0;
    assert(tags.dom() =~= base.dom());
}

/// The directories that hang off the page of a clone are where they were put.
#[verifier::spinoff_prover]
#[verifier::rlimit(30)]
pub proof fn lemma_children_in_clone(
    s: Seq<u8>,
    page: Map<u16, IfdEntry>,
    children: Seq<IfdModel>,
    added: Map<u16, ClonedModel>,
    e: Endianness,
    big: bool,
)
    requires
        cloned_tiff(blank_header(e, big), s, page, children, added, e, big) is Some,
    ensures
        ({
            let out = cloned_tiff(blank_header(e, big), s, page, children, added, e, big)->0;
            let (wc, places) = cloned_children(blank_header(e, big), s, children, e, big)->0;
            &&& places.len() == children.len()
            &&& forall|i: int|
                0 <= i < places.len() ==> 0 <= #[trigger] places[i] && ifd_fits(
                    out,
                    places[i],
                    e,
                    big,
                ) && ifd_end(out, places[i], e, big) <= wc.len()
            &&& header_slot(big) + offset_width(big) <= wc.len() <= before_page(
                s,
                page,
                children,
                added,
                e,
                big,
            ).len()
            &&& forall|i: int|
                0 <= i < places.len() ==> header_slot(big) + offset_width(big)
                    <= #[trigger] places[i]
        }),
{
    let h = blank_header(e, big);
    let hl = header_slot(big) + offset_width(big);
    assert(h.len() == hl);
    lemma_clone_page(s, page, children, added, e, big);
    let out = cloned_tiff(h, s, page, children, added, e, big)->0;
    let w1 = before_page(s, page, children, added, e, big);
    lemma_cloned_children(h, s, children, e, big);
    let (wc, places) = cloned_children(h, s, children, e, big)->0;
    lemma_cloned_image(wc, s, cloned_entries(s, page, e, big), e);
    assert(agree(wc, out, hl, wc.len() as int)) by {
        assert forall|k: int| hl <= k < wc.len() implies #[trigger] wc[k] == out[k] by {
            assert(w1.subrange(0, wc.len() as int)[k] == wc[k]);
            assert(w1[k] == out[k]);
        }
    }
    assert forall|i: int| 0 <= i < places.len() implies 0 <= #[trigger] places[i] && ifd_fits(
        out,
        places[i],
        e,
        big,
    ) && ifd_end(out, places[i], e, big) <= wc.len() by {
        assert(ifd_fits(wc, places[i], e, big));
        lemma_ifd_agree(wc, out, places[i], e, big, IfdType::Subfile);
    }
}

/// The number of directories, of those that hang off the page of a file, that come before that for
/// GPS.
pub open spec fn before_gps(m: TiffModel) -> int {
    subfile_count(m) + (if m.page.entries.contains_key(EXIFIFD_TAG) {
        1int
    } else {
        0
    })
}

/// Whether the values of `tags` list the directories that hang off the page of a file, which are
/// at `places`.
#[verifier::opaque]
pub open spec fn lists_children(
    tags: Map<u16, ClonedModel>,
    places: Seq<int>,
    m: TiffModel,
) -> bool {
    let e = m.byte_order;
    let big = m.big_tiff;
    let n1 = subfile_count(m);
    let n2 = before_gps(m);
    let ps = places.subrange(0, n1);
    &&& 0 <= n1 <= n2 <= places.len()
    &&& tags.contains_key(SUBFILE_TAG) <==> m.page.entries.contains_key(SUBFILE_TAG)
    &&& tags.contains_key(EXIFIFD_TAG) <==> m.page.entries.contains_key(EXIFIFD_TAG)
    &&& tags.contains_key(GPSIFD_TAG) <==> m.page.entries.contains_key(GPSIFD_TAG)
    &&& tags.contains_key(SUBFILE_TAG) ==> {
        &&& tags[SUBFILE_TAG].value_count == ps.len()
        &&& ps.len() > 0 ==> tags[SUBFILE_TAG].value_bytes == words_bytes(e, ps, big)
        &&& forall|i: int| 0 <= i < ps.len() ==> #[trigger] ps[i] <= word_max(big)
    }
    &&& tags.contains_key(EXIFIFD_TAG) ==> {
        &&& n1 < places.len()
        &&& places[n1] <= word_max(big)
        &&& tags[EXIFIFD_TAG].value_bytes == words_bytes(e, seq![places[n1]], big)
    }
    &&& tags.contains_key(GPSIFD_TAG) ==> {
        &&& n2 < places.len()
        &&& places[n2] <= word_max(big)
        &&& tags[GPSIFD_TAG].value_bytes == words_bytes(e, seq![places[n2]], big)
    }
}

/// The tags of the page of a clone that other directories hang off.
#[verifier::spinoff_prover]
#[verifier::rlimit(30)]
proof fn lemma_page_lists(
    s: Seq<u8>,
    m: TiffModel,
    page: Map<u16, IfdEntry>,
    added: Map<u16, ClonedModel>,
)
    requires
        parse_tiff(s) == Ok::<TiffModel, Error>(m),
        same_children(page, m),
        no_children(added),
        cloned_tiff(
            blank_header(m.byte_order, m.big_tiff),
            s,
            page,
            m.children,
            added,
            m.byte_order,
            m.big_tiff,
        ) is Some,
    ensures
        lists_children(
            page_tags(s, page, m.children, added, m.byte_order, m.big_tiff),
            child_places(s, m),
            m,
        ),
{
    reveal(lists_children);
    let e = m.byte_order;
    let big = m.big_tiff;
    let children = m.children;
    let h = blank_header(e, big);
    let tags = page_tags(s, page, children, added, e, big);
    lemma_child_kinds(s, m);
    let a = subfile_ifds(s, m.page.entries, e, big)->Ok_0;
    let b = tagged_ifd(s, m.page.entries, EXIFIFD_TAG, e, big, IfdType::Exif)->Ok_0;
    let c = tagged_ifd(s, m.page.entries, GPSIFD_TAG, e, big, IfdType::Gps)->Ok_0;
    lemma_cloned_children(h, s, children, e, big);
    let (wc, places) = cloned_children(h, s, children, e, big)->0;
    lemma_places(a, b, c, places);
    let n1 = a.len() as int;
    let n2 = n1 + b.len();
    let n3 = n2 + c.len();
    let cloned = cloned_entries(s, page, e, big);
    lemma_cloned_image(wc, s, cloned, e);
    let (wi, image) = cloned_image(wc, s, cloned, e)->Ok_0;
    let base = image.union_prefer_right(added);
    lemma_child_places(base, children, places, e, big);
    assert forall|t: u16| t == SUBFILE_TAG || t == EXIFIFD_TAG || t == GPSIFD_TAG implies {
        &&& #[trigger] tags.contains_key(t) <==> m.page.entries.contains_key(t)
        &&& tags.contains_key(t) ==> base[t] == cloned[t]
    } by {
        assert(page.contains_key(t) <==> m.page.entries.contains_key(t));
        assert(cloned.contains_key(t) <==> page.contains_key(t));
        assert(image.dom().contains(t) <==> cloned.dom().contains(t));
        assert(tags.dom().contains(t) <==> base.dom().contains(t));
    }
    assert(page.contains_key(SUBFILE_TAG) <==> m.page.entries.contains_key(SUBFILE_TAG));
    let ps = places.subrange(0, n1);
    let pe = places.subrange(n1, n2);
    let pg = places.subrange(n2, n3);
    if tags.contains_key(SUBFILE_TAG) {
        assert(cloned[SUBFILE_TAG].value_count == page[SUBFILE_TAG].value_count);
    }
    if tags.contains_key(EXIFIFD_TAG) {
        assert(pe =~= seq![places[n1]]);
        assert(pe[0] == places[n1]);
    }
    if tags.contains_key(GPSIFD_TAG) {
        assert(pg =~= seq![places[n2]]);
        assert(pg[0] == places[n2]);
    }
}

/// The directories of a clone are found again, but for subfiles of BigTIFF files.
pub proof fn lemma_clone_parses(
    s: Seq<u8>,
    m: TiffModel,
    page: Map<u16, IfdEntry>,
    added: Map<u16, ClonedModel>,
    out: Seq<u8>,
)
    requires
        parse_tiff(s) == Ok::<TiffModel, Error>(m),
        same_children(page, m),
        no_children(added),
        cloned_tiff(
            blank_header(m.byte_order, m.big_tiff),
            s,
            page,
            m.children,
            added,
            m.byte_order,
            m.big_tiff,
        ) == Some(out),
    ensures
        finds_subfiles(m, out) ==> parse_tiff(out) is Ok,
        parse_tiff(out) matches Ok(m2) ==> {
            &&& m2.byte_order == m.byte_order
            &&& m2.big_tiff == m.big_tiff
            &&& m2.page == ifd_at(
                out,
                page_place(s, page, m.children, added, m.byte_order, m.big_tiff),
                m.byte_order,
                m.big_tiff,
                IfdType::Page,
            )
            &&& finds_subfiles(m, out) ==> m2.children == ifds_at_places(
                out,
                child_places(s, m),
                m.children,
                m.byte_order,
                m.big_tiff,
            )
        },
{
    let e = m.byte_order;
    let big = m.big_tiff;
    lemma_clone_page(s, page, m.children, added, e, big);
    let at = page_place(s, page, m.children, added, e, big);
    assert(at as u64 == at);
    if finds_subfiles(m, out) {
        lemma_clone_finds(s, m, page, added, out);
    }
}

proof fn lemma_clone_finds(
    s: Seq<u8>,
    m: TiffModel,
    page: Map<u16, IfdEntry>,
    added: Map<u16, ClonedModel>,
    out: Seq<u8>,
)
    requires
        parse_tiff(s) == Ok::<TiffModel, Error>(m),
        same_children(page, m),
        no_children(added),
        cloned_tiff(
            blank_header(m.byte_order, m.big_tiff),
            s,
            page,
            m.children,
            added,
            m.byte_order,
            m.big_tiff,
        ) == Some(out),
        finds_subfiles(m, out),
    ensures
        child_ifds(
            out,
            ifd_at(
                out,
                page_place(s, page, m.children, added, m.byte_order, m.big_tiff),
                m.byte_order,
                m.big_tiff,
                IfdType::Page,
            ).entries,
            m.byte_order,
            m.big_tiff,
        ) == Ok::<Seq<IfdModel>, Error>(
            ifds_at_places(
                out,
                child_places(s, m),
                m.children,
                m.byte_order,
                m.big_tiff,
            ),
        ),
{
    let e = m.byte_order;
    let big = m.big_tiff;
    lemma_clone_page(s, page, m.children, added, e, big);
    lemma_children_in_clone(s, page, m.children, added, e, big);
    let at = page_place(s, page, m.children, added, e, big);
    let lo = before_page(s, page, m.children, added, e, big).len() as int;
    let tags = page_tags(s, page, m.children, added, e, big);
    let entries = ifd_at(out, at, e, big, IfdType::Page).entries;
    lemma_finds(s, m, page, added, out, out, entries, tags, lo, at);
}

/// Where the directories that hang off the page of a clone are put.
pub open spec fn child_places(s: Seq<u8>, m: TiffModel) -> Seq<int> {
    let (w, places) = cloned_children(
        blank_header(m.byte_order, m.big_tiff),
        s,
        m.children,
        m.byte_order,
        m.big_tiff,
    )->0;
    places
}

/// The directories stored at `places`, of the same kinds as `children`.
pub open spec fn ifds_at_places(
    s: Seq<u8>,
    places: Seq<int>,
    children: Seq<IfdModel>,
    e: Endianness,
    big: bool,
) -> Seq<IfdModel> {
    Seq::new(places.len(), |i: int| ifd_at(s, places[i], e, big, children[i].ifd_type))
}

/// The directories that hang off the page are found in any data `b` that has them, and the
/// values of the page's tags, where the clone `out` has them.
pub proof fn lemma_finds(
    s: Seq<u8>,
    m: TiffModel,
    page: Map<u16, IfdEntry>,
    added: Map<u16, ClonedModel>,
    out: Seq<u8>,
    b: Seq<u8>,
    entries: Map<u16, IfdEntry>,
    tags: Map<u16, ClonedModel>,
    lo: int,
    at: int,
)
    requires
        parse_tiff(s) == Ok::<TiffModel, Error>(m),
        same_children(page, m),
        no_children(added),
        cloned_tiff(
            blank_header(m.byte_order, m.big_tiff),
            s,
            page,
            m.children,
            added,
            m.byte_order,
            m.big_tiff,
        ) == Some(out),
        finds_subfiles(m, out),
        b.len() == out.len(),
        stores(entries, tags, b, lo, at, m.byte_order, m.big_tiff),
        0 <= lo,
        ({
            let own = page_tags(s, page, m.children, added, m.byte_order, m.big_tiff);
            forall|t: u16|
                t == SUBFILE_TAG || t == EXIFIFD_TAG || t == GPSIFD_TAG ==> (
                #[trigger] tags.contains_key(t) <==> own.contains_key(t)) && tags[t] == own[t]
        }),
        ({
            let (wc, places) = cloned_children(
                blank_header(m.byte_order, m.big_tiff),
                s,
                m.children,
                m.byte_order,
                m.big_tiff,
            )->0;
            forall|i: int|
                0 <= i < places.len() ==> ifd_fits(
                    b,
                    #[trigger] places[i],
                    m.byte_order,
                    m.big_tiff,
                )
        }),
    ensures
        child_ifds(b, entries, m.byte_order, m.big_tiff) == Ok::<Seq<IfdModel>, Error>(
            ifds_at_places(b, child_places(s, m), m.children, m.byte_order, m.big_tiff),
        ),
{
    let e = m.byte_order;
    let big = m.big_tiff;
    let children = m.children;
    let own = page_tags(s, page, children, added, e, big);
    let places = child_places(s, m);
    assert(lists_children(tags, places, m)) by {
        lemma_page_lists(s, m, page, added);
        lemma_same_lists(own, tags, places, m);
    }
    assert forall|i: int| 0 <= i < places.len() implies 0 <= #[trigger] places[i] && ifd_fits(
        b,
        places[i],
        e,
        big,
    ) by {
        lemma_children_in_clone(s, page, children, added, e, big);
    }
    assert(found_ifds(b, places, m) == ifds_at_places(b, places, children, e, big)) by {
        lemma_children_in_clone(s, page, children, added, e, big);
        lemma_found_in_order(s, m, b, places);
    }
    assert(4 * subfile_count(m) <= u64::MAX && 4 * subfile_count(m) <= usize::MAX) by {
        lemma_child_kinds(s, m);
    }
    lemma_found(m, b, entries, tags, lo, at, places);
}

/// Tags with the same values list the same directories.
proof fn lemma_same_lists(
    own: Map<u16, ClonedModel>,
    tags: Map<u16, ClonedModel>,
    places: Seq<int>,
    m: TiffModel,
)
    requires
        lists_children(own, places, m),
        forall|t: u16|
            t == SUBFILE_TAG || t == EXIFIFD_TAG || t == GPSIFD_TAG ==> (
            #[trigger] tags.contains_key(t) <==> own.contains_key(t)) && tags[t] == own[t],
    ensures
        lists_children(tags, places, m),
{
    reveal(lists_children);
    assert(tags.contains_key(SUBFILE_TAG) <==> own.contains_key(SUBFILE_TAG));
    assert(tags.contains_key(EXIFIFD_TAG) <==> own.contains_key(EXIFIFD_TAG));
    assert(tags.contains_key(GPSIFD_TAG) <==> own.contains_key(GPSIFD_TAG));
}

/// What is found is in the order of what hangs off the page of the file.
proof fn lemma_found_in_order(s: Seq<u8>, m: TiffModel, b: Seq<u8>, places: Seq<int>)
    requires
        parse_tiff(s) == Ok::<TiffModel, Error>(m),
        places.len() == m.children.len(),
    ensures
        found_ifds(b, places, m) == ifds_at_places(
            b,
            places,
            m.children,
            m.byte_order,
            m.big_tiff,
        ),
{
    lemma_kinds_in_order(s, m);
    assert(found_ifds(b, places, m) =~= ifds_at_places(
        b,
        places,
        m.children,
        m.byte_order,
        m.big_tiff,
    ));
}

/// The directories at `places`, the kinds of which are those of the directories that hang off the
/// page of a file.
spec fn found_ifds(b: Seq<u8>, places: Seq<int>, m: TiffModel) -> Seq<IfdModel> {
    let e = m.byte_order;
    let big = m.big_tiff;
    let subfiles = ifds_at(b, places.subrange(0, subfile_count(m)), e, big, IfdType::Subfile);
    let exif = if m.page.entries.contains_key(EXIFIFD_TAG) {
        seq![ifd_at(b, places[subfile_count(m)], e, big, IfdType::Exif)]
    } else {
        Seq::empty()
    };
    let gps = if m.page.entries.contains_key(GPSIFD_TAG) {
        seq![ifd_at(b, places[before_gps(m)], e, big, IfdType::Gps)]
    } else {
        Seq::empty()
    };
    subfiles + exif + gps
}

/// Directories that are listed are found.
proof fn lemma_found(
    m: TiffModel,
    b: Seq<u8>,
    entries: Map<u16, IfdEntry>,
    tags: Map<u16, ClonedModel>,
    lo: int,
    at: int,
    places: Seq<int>,
)
    requires
        lists_children(tags, places, m),
        stores(entries, tags, b, lo, at, m.byte_order, m.big_tiff),
        0 <= lo,
        finds_subfiles(m, b),
        4 * subfile_count(m) <= u64::MAX,
        4 * subfile_count(m) <= usize::MAX,
        forall|i: int|
            0 <= i < places.len() ==> 0 <= #[trigger] places[i] && ifd_fits(
                b,
                places[i],
                m.byte_order,
                m.big_tiff,
            ),
    ensures
        child_ifds(b, entries, m.byte_order, m.big_tiff) == Ok::<Seq<IfdModel>, Error>(
            found_ifds(b, places, m),
        ),
{
    reveal(lists_children);
    let e = m.byte_order;
    let big = m.big_tiff;
    let n1 = subfile_count(m);
    let n2 = before_gps(m);
    let ps = places.subrange(0, n1);
    assert forall|t: u16| #[trigger] entries.contains_key(t) <==> tags.contains_key(t) by {
        assert(entries.dom().contains(t) <==> tags.dom().contains(t));
    }
    if tags.contains_key(SUBFILE_TAG) {
        assert forall|i: int| 0 <= i < ps.len() implies 0 <= #[trigger] ps[i] <= word_max(big)
            && ifd_fits(b, ps[i], e, big) by {
            assert(ps[i] == places[i]);
        }
        if big && ps.len() > 0 {
            assert(ifd_fits(b, ps[0], e, big));
            lemma_fits_below(b, ps[0], e, big);
        }
        lemma_subfiles_again(b, entries, tags, lo, at, ps, e, big);
    } else {
        assert(ifds_at(b, ps, e, big, IfdType::Subfile) =~= Seq::empty());
    }
    if tags.contains_key(EXIFIFD_TAG) {
        assert(ifd_fits(b, places[n1], e, big));
        lemma_tagged_again(
            b,
            entries,
            tags,
            lo,
            at,
            EXIFIFD_TAG,
            places[n1],
            e,
            big,
            IfdType::Exif,
        );
    }
    if tags.contains_key(GPSIFD_TAG) {
        assert(ifd_fits(b, places[n2], e, big));
        lemma_tagged_again(
            b,
            entries,
            tags,
            lo,
            at,
            GPSIFD_TAG,
            places[n2],
            e,
            big,
            IfdType::Gps,
        );
    }
}

/// The kinds of the directories that hang off the page of a file, by their place among them.
proof fn lemma_kinds_in_order(s: Seq<u8>, m: TiffModel)
    requires
        parse_tiff(s) == Ok::<TiffModel, Error>(m),
    ensures
        ({
            let n1 = subfile_count(m);
            let n2 = n1 + (if m.page.entries.contains_key(EXIFIFD_TAG) {
                1int
            } else {
                0
            });
            let n3 = n2 + (if m.page.entries.contains_key(GPSIFD_TAG) {
                1int
            } else {
                0
            });
            &&& m.children.len() == n3
            &&& forall|i: int|
                0 <= i < n3 ==> (#[trigger] m.children[i]).ifd_type == (if i < n1 {
                    IfdType::Subfile
                } else if i < n2 {
                    IfdType::Exif
                } else {
                    IfdType::Gps
                })
        }),
{
    lemma_child_kinds(s, m);
    let a = subfile_ifds(s, m.page.entries, m.byte_order, m.big_tiff)->Ok_0;
    let b = tagged_ifd(
        s,
        m.page.entries,
        EXIFIFD_TAG,
        m.byte_order,
        m.big_tiff,
        IfdType::Exif,
    )->Ok_0;
    let c = tagged_ifd(
        s,
        m.page.entries,
        GPSIFD_TAG,
        m.byte_order,
        m.big_tiff,
        IfdType::Gps,
    )->Ok_0;
    let n1 = a.len() as int;
    let n2 = n1 + b.len();
    assert forall|i: int| 0 <= i < m.children.len() implies (#[trigger] m.children[i]).ifd_type
        == (if i < n1 {
        IfdType::Subfile
    } else if i < n2 {
        IfdType::Exif
    } else {
        IfdType::Gps
    }) by {
        if i < n1 {
            assert(m.children[i] == a[i]);
        } else if i < n2 {
            assert(m.children[i] == b[i - n1]);
        } else {
            assert(m.children[i] == c[i - n2]);
        }
    }
}

/// A directory that fits starts before the end of the data.
proof fn lemma_fits_below(s: Seq<u8>, p: int, e: Endianness, big: bool)
    requires
        ifd_fits(s, p, e, big),
    ensures
        p + 2 <= s.len(),
{
}

} // verus!
