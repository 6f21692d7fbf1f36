//! What the directories that hang off the page of a clone read back as.

use vstd::prelude::*;

use crate::endian::Endianness;
use crate::tiff::directory::{ifd_at, ifd_fits, offset_width, IfdEntry, IfdModel, IfdType};
use crate::tiff::layout::{
    blank_header, cloned_child, cloned_children, cloned_entries, cloned_image, cloned_tiff,
    entries_clone, header_slot, written_ifd, ClonedModel,
};
use crate::tiff::lemmas::{
    agree, lemma_cloned_child, lemma_cloned_children, lemma_cloned_image, lemma_ifd_agree,
    lemma_written_ifd, stores,
};
use crate::tiff::map::TiffModel;
use crate::tiff::reread::{
    before_page, child_places, lemma_children_in_clone, lemma_clone_page, lemma_stores_agree,
};

verus! {

broadcast use crate::endian::group_widths;

/// What stands before the clone of the directory at `i` of those that hang off the page of a file.
pub open spec fn before_child(s: Seq<u8>, m: TiffModel, i: int) -> Seq<u8> {
    let (w, places) = cloned_children(
        blank_header(m.byte_order, m.big_tiff),
        s,
        m.children.take(i),
        m.byte_order,
        m.big_tiff,
    )->0;
    w
}

/// Whether the clone at `at` of a directory stands in `b` as it was written behind `w`.
#[verifier::opaque]
pub open spec fn child_stored(
    b: Seq<u8>,
    at: int,
    w: Seq<u8>,
    s: Seq<u8>,
    from: Map<u16, IfdEntry>,
    e: Endianness,
    big: bool,
    ty: IfdType,
) -> bool {
    let (wi, tags) = cloned_image(w, s, cloned_entries(s, from, e, big), e)->Ok_0;
    &&& entries_clone(s, from, e, big)
    &&& cloned_image(w, s, cloned_entries(s, from, e, big), e) is Ok
    &&& w.len() <= wi.len() <= at <= b.len()
    &&& agree(wi, b, w.len() as int, wi.len() as int)
    &&& ifd_fits(b, at, e, big)
    &&& stores(ifd_at(b, at, e, big, ty).entries, tags, b, wi.len() as int, at, e, big)
}

proof fn lemma_child_written(
    w: Seq<u8>,
    s: Seq<u8>,
    from: Map<u16, IfdEntry>,
    e: Endianness,
    big: bool,
    ty: IfdType,
)
    requires
        cloned_child(w, s, from, e, big) is Some,
    ensures
        ({
            let (w1, at) = cloned_child(w, s, from, e, big)->0;
            child_stored(w1, at, w, s, from, e, big, ty)
        }),
{
    reveal(cloned_child);
    reveal(child_stored);
    lemma_cloned_image(w, s, cloned_entries(s, from, e, big), e);
    let (w1, at) = cloned_child(w, s, from, e, big)->0;
    let (wi, tags) = cloned_image(w, s, cloned_entries(s, from, e, big), e)->Ok_0;
    lemma_written_ifd(wi, tags, e, big, ty);
    let (w2, start) = written_ifd(wi, tags, e, big)->0;
    assert forall|k: int| w.len() <= k < wi.len() implies #[trigger] wi[k] == w1[k] by {
        assert(w2.subrange(0, wi.len() as int)[k] == wi[k]);
    }
}

/// The clone of each directory stands as it was written.
proof fn lemma_child_stored(
    w: Seq<u8>,
    s: Seq<u8>,
    children: Seq<IfdModel>,
    e: Endianness,
    big: bool,
    i: int,
    ty: IfdType,
)
    requires
        cloned_children(w, s, children, e, big) is Some,
        0 <= i < children.len(),
    ensures
        cloned_children(w, s, children.take(i), e, big) is Some,
        ({
            let (w1, at) = cloned_children(w, s, children, e, big)->0;
            let (wb, _) = cloned_children(w, s, children.take(i), e, big)->0;
            &&& w.len() <= wb.len()
            &&& child_stored(w1, at[i], wb, s, children[i].entries, e, big, ty)
        }),
    decreases children.len(),
{
    let less = children.drop_last();
    let (w1, at) = cloned_children(w, s, children, e, big)->0;
    let (w0, at0) = cloned_children(w, s, less, e, big)->0;
    lemma_cloned_children(w, s, less, e, big);
    lemma_cloned_child(w0, s, children.last().entries, e, big);
    if i == less.len() {
        assert(children.take(i) =~= less);
        lemma_child_written(w0, s, children[i].entries, e, big, ty);
    } else {
        assert(less.take(i) =~= children.take(i));
        assert(less[i] == children[i]);
        lemma_child_stored(w, s, less, e, big, i, ty);
        assert(at[i] == at0[i]);
        assert(agree(w0, w1, 0, w0.len() as int)) by {
            assert forall|k: int| 0 <= k < w0.len() implies #[trigger] w0[k] == w1[k] by {
                assert(w1.subrange(0, w0.len() as int)[k] == w0[k]);
            }
        }
        let (wb, _) = cloned_children(w, s, children.take(i), e, big)->0;
        lemma_child_agree(w0, w1, 0, at[i], wb, s, children[i].entries, e, big, ty);
    }
}

/// A clone that stands in `a` stands in any data that agrees with `a`.
proof fn lemma_child_agree(
    a: Seq<u8>,
    b: Seq<u8>,
    p: int,
    at: int,
    w: Seq<u8>,
    s: Seq<u8>,
    from: Map<u16, IfdEntry>,
    e: Endianness,
    big: bool,
    ty: IfdType,
)
    requires
        child_stored(a, at, w, s, from, e, big, ty),
        0 <= p <= w.len(),
        a.len() <= b.len(),
        agree(a, b, p, a.len() as int),
    ensures
        child_stored(b, at, w, s, from, e, big, ty),
{
    reveal(child_stored);
    let (wi, tags) = cloned_image(w, s, cloned_entries(s, from, e, big), e)->Ok_0;
    lemma_ifd_agree(a, b, at, e, big, ty);
    assert forall|k: int| w.len() <= k < wi.len() implies #[trigger] wi[k] == b[k] by {
        assert(a[k] == b[k]);
    }
    lemma_stores_agree(
        ifd_at(a, at, e, big, ty).entries,
        tags,
        a,
        b,
        wi.len() as int,
        at,
        e,
        big,
    );
}

/// The clones of the directories that hang off the page of a file stand in the clone of the file.
pub proof fn lemma_child_in_clone(
    s: Seq<u8>,
    m: TiffModel,
    page: Map<u16, IfdEntry>,
    added: Map<u16, ClonedModel>,
    out: Seq<u8>,
    i: int,
)
    requires
        cloned_tiff(
            blank_header(m.byte_order, m.big_tiff),
            s,
            page,
            m.children,
            added,
            m.byte_order,
            m.big_tiff,
        ) == Some(out),
        0 <= i < m.children.len(),
    ensures
        child_places(s, m).len() == m.children.len(),
        child_stored(
            out,
            child_places(s, m)[i],
            before_child(s, m, i),
            s,
            m.children[i].entries,
            m.byte_order,
            m.big_tiff,
            m.children[i].ifd_type,
        ),
{
    let e = m.byte_order;
    let big = m.big_tiff;
    let h = blank_header(e, big);
    let hl = header_slot(big) + offset_width(big);
    assert(h.len() == hl);
    let ty = m.children[i].ifd_type;
    lemma_clone_page(s, page, m.children, added, e, big);
    lemma_children_in_clone(s, page, m.children, added, e, big);
    lemma_cloned_children(h, s, m.children, e, big);
    lemma_child_stored(h, s, m.children, e, big, i, ty);
    let (wc, places) = cloned_children(h, s, m.children, e, big)->0;
    let w1 = before_page(s, page, m.children, added, e, big);
    lemma_cloned_image(wc, s, cloned_entries(s, page, e, big), e);
    assert(agree(wc, out, hl, wc.len() as int)) by {
        assert forall|k: int| hl <= k < wc.len() implies #[trigger] wc[k] == out[k] by {
            assert(w1.subrange(0, wc.len() as int)[k] == wc[k]);
            assert(w1[k] == out[k]);
        }
    }
    lemma_child_agree(
        wc,
        out,
        hl,
        places[i],
        before_child(s, m, i),
        s,
        m.children[i].entries,
        e,
        big,
        ty,
    );
}

} // verus!
