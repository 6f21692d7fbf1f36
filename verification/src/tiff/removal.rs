//! What a directory is without one of its tags.

use vstd::prelude::*;

use crate::endian::Endianness;
use crate::error::Error;
use crate::tiff::directory::{
    IfdEntry, IfdModel, EXIFIFD_TAG, GPSIFD_TAG, STRIPBYTECOUNTS, STRIPOFFSETS, SUBFILE_TAG,
    TILEBYTECOUNTS, TILEOFFSETS,
};
use crate::tiff::layout::{
    blank_header, cloned_children, cloned_entries, cloned_image, cloned_page, cloned_tiff,
    cloned_value, counts_fit, entries_clone, padded, placed_values, with_child_places, written_ifd,
    ClonedModel,
};
use crate::tiff::tags::{lemma_sorted_tags, sorted_tags, tags_below};

verus! {

/// The values that do not fit their entries take no more room when one tag is left out.
proof fn lemma_fewer_values(
    w: Seq<u8>,
    m: Map<u16, ClonedModel>,
    tag: u16,
    e: Endianness,
    big: bool,
    limit: int,
)
    requires
        placed_values(w, m, tags_below(m.dom(), limit), e, big) is Some,
        0 <= limit <= 0x1_0000,
    ensures
        ({
            let less = placed_values(
                w,
                m.remove(tag),
                tags_below(m.dom().remove(tag), limit),
                e,
                big,
            );
            let (w1, _) = placed_values(w, m, tags_below(m.dom(), limit), e, big)->0;
            &&& less matches Some((w2, _)) && w2.len() <= w1.len()
            &&& tags_below(m.dom().remove(tag), limit).len() <= tags_below(m.dom(), limit).len()
        }),
    decreases limit,
{
    if limit > 0 {
        let t = (limit - 1) as u16;
        let ks = tags_below(m.dom(), limit - 1);
        let less = tags_below(m.dom().remove(tag), limit - 1);
        if m.dom().contains(t) {
            assert(ks.push(t).drop_last() =~= ks);
            assert(ks.push(t).last() == t);
        }
        lemma_fewer_values(w, m, tag, e, big, limit - 1);
        if m.dom().contains(t) && t != tag {
            assert(m.remove(tag)[t] == m[t]);
            assert(less.push(t).drop_last() =~= less);
            assert(less.push(t).last() == t);
        }
    }
}

/// A directory that can be written can be written without one of its tags, and does not start
/// later.
#[verifier::spinoff_prover]
#[verifier::rlimit(30)]
proof fn lemma_fewer_tags(
    w: Seq<u8>,
    m: Map<u16, ClonedModel>,
    tag: u16,
    e: Endianness,
    big: bool,
)
    requires
        written_ifd(w, m, e, big) is Some,
    ensures
        ({
            let (_, at) = written_ifd(w, m, e, big)->0;
            written_ifd(w, m.remove(tag), e, big) matches Some((_, start)) && start <= at
        }),
{
    let less = m.remove(tag);
    let ks = sorted_tags(m.dom());
    let fewer = sorted_tags(less.dom());
    let (w1, _) = placed_values(w, m, ks, e, big)->0;
    assert(less.dom() =~= m.dom().remove(tag));
    assert(fewer.len() <= ks.len() && (placed_values(w, less, fewer, e, big) matches Some((w2, _))
        && w2.len() <= w1.len())) by {
        lemma_fewer_values(w, m, tag, e, big, 0x1_0000);
    }
    assert(counts_fit(less, fewer, big)) by {
        lemma_fewer_counts(m, tag, big);
    }
    let (w2, _) = placed_values(w, less, fewer, e, big)->0;
    lemma_padded_len(w2, w1);
}

/// Where the counts of a directory fit, they fit without one of its tags.
proof fn lemma_fewer_counts(m: Map<u16, ClonedModel>, tag: u16, big: bool)
    requires
        counts_fit(m, sorted_tags(m.dom()), big),
        sorted_tags(m.remove(tag).dom()).len() <= sorted_tags(m.dom()).len(),
    ensures
        counts_fit(m.remove(tag), sorted_tags(m.remove(tag).dom()), big),
{
    let less = m.remove(tag);
    let ks = sorted_tags(m.dom());
    let fewer = sorted_tags(less.dom());
    lemma_sorted_tags(m.dom());
    lemma_sorted_tags(less.dom());
    if !big {
        assert forall|i: int| 0 <= i < fewer.len() implies (#[trigger] less[fewer[i]]).value_count
            <= u32::MAX by {
            let t = fewer[i];
            assert(fewer.contains(t));
            assert(less.dom().contains(t));
            assert(ks.contains(t));
            let j = choose|j: int| 0 <= j < ks.len() && ks[j] == t;
            assert(m[ks[j]].value_count <= u32::MAX);
        }
    }
}

/// What is no longer is no longer when it is padded.
proof fn lemma_padded_len(a: Seq<u8>, b: Seq<u8>)
    requires
        a.len() <= b.len(),
    ensures
        padded(a).len() <= padded(b).len(),
{
}

/// Whether a tag has nothing to do with what a directory describes or what hangs off it.
pub open spec fn is_plain(tag: u16) -> bool {
    &&& tag != STRIPOFFSETS && tag != STRIPBYTECOUNTS
    &&& tag != TILEOFFSETS && tag != TILEBYTECOUNTS
    &&& tag != SUBFILE_TAG && tag != EXIFIFD_TAG && tag != GPSIFD_TAG
}

/// The image data of a directory does not depend on its other tags.
proof fn lemma_image_without(
    w: Seq<u8>,
    s: Seq<u8>,
    m: Map<u16, ClonedModel>,
    tag: u16,
    e: Endianness,
)
    requires
        is_plain(tag),
        cloned_image(w, s, m, e) is Ok,
    ensures
        ({
            let (w1, m1) = cloned_image(w, s, m, e)->Ok_0;
            cloned_image(w, s, m.remove(tag), e) == Ok::<(Seq<u8>, Map<u16, ClonedModel>), Error>(
                (w1, m1.remove(tag)),
            )
        }),
{
    let (w1, m1) = cloned_image(w, s, m, e)->Ok_0;
    let (_, m2) = cloned_image(w, s, m.remove(tag), e)->Ok_0;
    assert(m2 =~= m1.remove(tag));
}

/// Where the directories that hang off a page are does not depend on its other tags.
proof fn lemma_places_without(
    m: Map<u16, ClonedModel>,
    children: Seq<IfdModel>,
    at: Seq<int>,
    tag: u16,
    e: Endianness,
    big: bool,
)
    requires
        is_plain(tag),
        with_child_places(m, children, at, e, big) is Ok,
    ensures
        with_child_places(m.remove(tag), children, at, e, big) is Ok,
        with_child_places(m.remove(tag), children, at, e, big)->Ok_0 == with_child_places(
            m,
            children,
            at,
            e,
            big,
        )->Ok_0.remove(tag),
{
    assert(with_child_places(m.remove(tag), children, at, e, big)->Ok_0 =~= with_child_places(
        m,
        children,
        at,
        e,
        big,
    )->Ok_0.remove(tag));
}

/// A file that can be cloned with a tag added can be cloned without that tag.
#[verifier::spinoff_prover]
#[verifier::rlimit(30)]
pub proof fn lemma_clones_without(
    s: Seq<u8>,
    page: Map<u16, IfdEntry>,
    children: Seq<IfdModel>,
    c: ClonedModel,
    e: Endianness,
    big: bool,
)
    requires
        is_plain(c.entry_tag),
        cloned_tiff(
            blank_header(e, big),
            s,
            page,
            children,
            Map::empty().insert(c.entry_tag, c),
            e,
            big,
        ) is Some,
    ensures
        cloned_tiff(
            blank_header(e, big),
            s,
            page.remove(c.entry_tag),
            children,
            Map::empty(),
            e,
            big,
        ) is Some,
{
    let tag = c.entry_tag;
    let h = blank_header(e, big);
    let added = Map::<u16, ClonedModel>::empty().insert(tag, c);
    let none = Map::<u16, ClonedModel>::empty();
    let less = page.remove(tag);
    let (wc, at) = cloned_children(h, s, children, e, big)->0;
    assert(entries_clone(s, less, e, big)) by {
        assert forall|t: u16| less.contains_key(t) implies (#[trigger] cloned_value(
            s,
            less[t],
            e,
            big,
        )) is Ok by {
            assert(page.contains_key(t) && less[t] == page[t]);
        }
    }
    let cloned = cloned_entries(s, page, e, big);
    assert(cloned_entries(s, less, e, big) =~= cloned.remove(tag));
    lemma_image_without(wc, s, cloned, tag, e);
    let (wi, image) = cloned_image(wc, s, cloned, e)->Ok_0;
    let base = image.union_prefer_right(added);
    assert(image.remove(tag).union_prefer_right(none) =~= base.remove(tag));
    lemma_places_without(base, children, at, tag, e, big);
    let (w1, tags) = cloned_page(h, s, page, children, added, e, big)->0;
    assert(cloned_page(h, s, less, children, none, e, big) == Some((w1, tags.remove(tag))));
    lemma_fewer_tags(w1, tags, tag, e, big);
}

} // verus!
