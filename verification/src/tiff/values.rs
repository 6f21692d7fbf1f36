//! What the values of a written directory, and the image data that it describes, read back as.

use vstd::prelude::*;

use crate::endian::{lemma_u16_round_trip, lemma_u32_round_trip, lemma_u64_round_trip, Endianness};
use crate::error::Error;
use crate::tiff::cloner::{lemma_code_injective, lemma_copied_chunks, lemma_numbers_bytes_len};
use crate::tiff::directory::{
    decoded_offset, offset_width, value_field, word_at, IFDEntryType, IfdEntry,
};
use crate::tiff::layout::{
    chunk_counts, chunk_offset, cloned_chunks, cloned_entries, cloned_image, cloned_value,
    copied_chunks, counts_tag, entries_clone, inline_field, number_at, number_bytes, number_max,
    numbers_bytes, numbers_len, offsets_tag, typed_value, unit_width, value_len, with_offsets,
    ClonedModel,
};
use crate::tiff::lemmas::{
    agree, field_of, holds_value, lemma_cloned_image, lemma_word_agree, stores,
};

verus! {

broadcast use crate::endian::group_widths;

/// The offset that an entry holds is the one in its value field.
pub proof fn lemma_field_offset(entry: IfdEntry, e: Endianness, big: bool)
    ensures
        decoded_offset(entry.value_offset, e, big) == word_at(e, field_of(entry, big), 0, big),
{
    let all = value_field(entry.value_offset);
    let field = field_of(entry, big);
    assert forall|i: int| 0 <= i < offset_width(big) implies #[trigger] all[0 + i] == field[0
        + i] by {
        assert(all.take(offset_width(big))[i] == all[i]);
    }
    lemma_word_agree(e, all, 0, field, 0, big);
}

/// Whether the clone of an entry reads back as the entry does. Of the values of eight-byte types,
/// BigTIFF files hold a single one in its entry, where it is not looked for.
pub open spec fn reads_back(entry: IfdEntry, big: bool) -> bool {
    forall|t: IFDEntryType| #[trigger]
        t.code() == entry.entry_type ==> !(big && unit_width(t) == 8 && entry.value_count == 1)
}

proof fn lemma_zero_word(e: Endianness, big: bool)
    ensures
        word_at(e, inline_field(Seq::empty(), big), 0, big) == 0,
{
    reveal(crate::endian::u16_at);
    reveal(crate::endian::u32_at);
    reveal(crate::endian::u64_at);
}

/// A stored value reads back as what was stored.
pub proof fn lemma_value_reads_back(
    out: Seq<u8>,
    entries: Map<u16, IfdEntry>,
    tags: Map<u16, ClonedModel>,
    lo: int,
    hi: int,
    t: u16,
    ty: IFDEntryType,
    e: Endianness,
    big: bool,
)
    requires
        stores(entries, tags, out, lo, hi, e, big),
        0 <= lo,
        tags.contains_key(t),
        ty.code() == tags[t].entry_type,
        tags[t].value_bytes.len() == value_len(ty, tags[t].value_count as int),
        value_len(ty, tags[t].value_count as int) <= u64::MAX,
        unit_width(ty) != 8 ==> value_len(ty, tags[t].value_count as int) <= usize::MAX,
        !(big && unit_width(ty) == 8 && tags[t].value_count == 1),
    ensures
        cloned_value(out, entries[t], e, big) == Ok::<Seq<u8>, Error>(tags[t].value_bytes),
{
    let entry = entries[t];
    let v = tags[t].value_bytes;
    let ow = offset_width(big);
    let field = field_of(entry, big);
    let all = value_field(entry.value_offset);
    assert(holds_value(out, lo, hi, tags[t], field, e, big));
    lemma_field_offset(entry, e, big);
    let chosen = choose|x: IFDEntryType| #[trigger] x.code() == entry.entry_type;
    assert(ty.code() == entry.entry_type);
    lemma_code_injective(chosen, ty);
    assert(cloned_value(out, entry, e, big) == typed_value(out, entry, ty, e, big));
    if v.len() <= ow {
        assert(all.take(v.len() as int) =~= v) by {
            assert forall|i: int| 0 <= i < v.len() implies all[i] == v[i] by {
                assert(all.take(ow)[i] == all[i]);
                assert(inline_field(v, big)[i] == v[i]);
            }
        }
        if unit_width(ty) == 8 {
            assert(v.len() == 0);
            assert(v =~= Seq::empty());
            lemma_zero_word(e, big);
            assert(out.subrange(0, 0) =~= v);
        }
    }
}

/// What a clone reads back as has the length that its type and count give.
pub proof fn lemma_cloned_len(s: Seq<u8>, entry: IfdEntry, ty: IFDEntryType, e: Endianness, big: bool)
    requires
        cloned_value(s, entry, e, big) is Ok,
        ty.code() == entry.entry_type,
    ensures
        cloned_value(s, entry, e, big)->Ok_0.len() == value_len(ty, entry.value_count as int),
        value_len(ty, entry.value_count as int) <= u64::MAX,
        unit_width(ty) != 8 ==> value_len(ty, entry.value_count as int) <= usize::MAX,
{
    let chosen = choose|x: IFDEntryType| #[trigger] x.code() == entry.entry_type;
    lemma_code_injective(chosen, ty);
}

/// Chunk `i` of the image that the directory `entries` of the file `s` describes.
pub open spec fn chunk_of(
    s: Seq<u8>,
    entries: Map<u16, IfdEntry>,
    tiled: bool,
    i: int,
    e: Endianness,
    big: bool,
) -> Option<Seq<u8>> {
    let m = cloned_entries(s, entries, e, big);
    match (
        chunk_counts(e, m[counts_tag(tiled)], tiled),
        chunk_offset(e, m[offsets_tag(tiled)], tiled, i),
    ) {
        (Ok(counts), Ok(p)) => if 0 <= i < counts.len() && p + counts[i] <= s.len() {
            Some(s.subrange(p, p + counts[i]))
        } else {
            None
        },
        _ => None,
    }
}

/// Whether a directory describes an image in chunks of the one kind and not of the other.
pub open spec fn has_just(entries: Map<u16, IfdEntry>, tiled: bool) -> bool {
    &&& entries.contains_key(counts_tag(tiled))
    &&& entries.contains_key(offsets_tag(tiled))
    &&& !entries.contains_key(counts_tag(!tiled))
    &&& !entries.contains_key(offsets_tag(!tiled))
}

/// Numbers are read back from where they were written.
proof fn lemma_numbers_at(e: Endianness, ty: u16, vs: Seq<int>, b: Seq<u8>)
    requires
        numbers_len(ty, vs.len() as int) <= b.len(),
        b.subrange(0, numbers_len(ty, vs.len() as int)) == numbers_bytes(e, ty, vs),
        forall|i: int| 0 <= i < vs.len() ==> 0 <= #[trigger] vs[i] <= number_max(ty),
    ensures
        forall|i: int| 0 <= i < vs.len() ==> number_at(e, b, ty, i) == #[trigger] vs[i],
    decreases vs.len(),
{
    if vs.len() > 0 {
        let less = vs.drop_last();
        let n = less.len() as int;
        let all = numbers_bytes(e, ty, vs);
        lemma_numbers_bytes_len(e, ty, vs);
        lemma_numbers_bytes_len(e, ty, less);
        let k = numbers_len(ty, n);
        let k1 = numbers_len(ty, n + 1);
        assert(b.subrange(0, k) =~= all.subrange(0, k));
        assert(all.subrange(0, k) =~= numbers_bytes(e, ty, less));
        assert forall|i: int| 0 <= i < less.len() implies 0 <= #[trigger] less[i]
            <= number_max(ty) by {
            assert(less[i] == vs[i]);
        }
        lemma_numbers_at(e, ty, less, b);
        assert(b.subrange(k, k1) =~= all.subrange(k, k1));
        assert(all.subrange(k, k1) =~= number_bytes(e, ty, vs.last()));
        if ty == 4 {
            lemma_u32_round_trip(e, b, k, vs.last());
        } else if ty == 3 {
            lemma_u16_round_trip(e, b, k, vs.last());
        } else {
            lemma_u64_round_trip(e, b, k, vs.last());
        }
        assert forall|i: int| 0 <= i < vs.len() implies number_at(e, b, ty, i)
            == #[trigger] vs[i] by {
            if i < n {
                assert(less[i] == vs[i]);
            }
        }
    }
}

/// Each copied chunk holds what the source has.
proof fn lemma_chunks_copied(
    w: Seq<u8>,
    s: Seq<u8>,
    counts: Seq<int>,
    o: ClonedModel,
    e: Endianness,
    tiled: bool,
    k: int,
)
    requires
        0 <= k <= counts.len(),
        copied_chunks(w, s, counts, o, e, tiled, k) is Ok,
        forall|i: int| 0 <= i < counts.len() ==> 0 <= #[trigger] counts[i],
    ensures
        ({
            let (w1, at) = copied_chunks(w, s, counts, o, e, tiled, k)->Ok_0;
            &&& at.len() == k
            &&& forall|i: int|
                0 <= i < k ==> {
                    &&& w.len() <= #[trigger] at[i]
                    &&& at[i] + counts[i] <= w1.len()
                    &&& chunk_offset(e, o, tiled, i) matches Ok(p) && p + counts[i] <= s.len()
                        && w1.subrange(at[i], at[i] + counts[i]) == s.subrange(p, p + counts[i])
                }
        }),
    decreases k,
{
    lemma_copied_chunks(w, s, counts, o, e, tiled, k);
    if k > 0 {
        lemma_chunks_copied(w, s, counts, o, e, tiled, k - 1);
        lemma_copied_chunks(w, s, counts, o, e, tiled, k - 1);
        let (w0, at0) = copied_chunks(w, s, counts, o, e, tiled, k - 1)->Ok_0;
        let (w1, at) = copied_chunks(w, s, counts, o, e, tiled, k)->Ok_0;
        assert forall|i: int| 0 <= i < k implies {
            &&& w.len() <= #[trigger] at[i]
            &&& at[i] + counts[i] <= w1.len()
            &&& chunk_offset(e, o, tiled, i) matches Ok(p) && p + counts[i] <= s.len()
                && w1.subrange(at[i], at[i] + counts[i]) == s.subrange(p, p + counts[i])
        } by {
            if i < k - 1 {
                assert(at[i] == at0[i]);
                assert(w1.subrange(at[i], at[i] + counts[i]) =~= w0.subrange(
                    at[i],
                    at[i] + counts[i],
                ));
            } else {
                let p = chunk_offset(e, o, tiled, i)->Ok_0;
                assert(w1.subrange(at[i], at[i] + counts[i]) =~= s.subrange(p, p + counts[i]));
            }
        }
    }
}

/// A chunk that a directory describes is in the data `out` that holds the clone of the directory,
/// and what was copied with it, where the clone says it is.
pub proof fn lemma_chunk_kept(
    s: Seq<u8>,
    from: Map<u16, IfdEntry>,
    w: Seq<u8>,
    out: Seq<u8>,
    entries: Map<u16, IfdEntry>,
    tags: Map<u16, ClonedModel>,
    lo: int,
    hi: int,
    tiled: bool,
    i: int,
    e: Endianness,
    big: bool,
)
    requires
        entries_clone(s, from, e, big),
        cloned_image(w, s, cloned_entries(s, from, e, big), e) is Ok,
        ({
            let (wi, image) = cloned_image(w, s, cloned_entries(s, from, e, big), e)->Ok_0;
            &&& tags.contains_key(counts_tag(tiled))
            &&& tags.contains_key(offsets_tag(tiled))
            &&& tags[counts_tag(tiled)] == image[counts_tag(tiled)]
            &&& tags[offsets_tag(tiled)] == image[offsets_tag(tiled)]
            &&& wi.len() <= out.len()
            &&& agree(wi, out, w.len() as int, wi.len() as int)
        }),
        stores(entries, tags, out, lo, hi, e, big),
        0 <= lo,
        has_just(from, tiled),
        reads_back(from[counts_tag(tiled)], big),
        reads_back(from[offsets_tag(tiled)], big),
        0 <= i < from[counts_tag(tiled)].value_count,
    ensures
        chunk_of(s, from, tiled, i, e, big) is Some,
        chunk_of(out, entries, tiled, i, e, big) == chunk_of(s, from, tiled, i, e, big),
{
    let ct = counts_tag(tiled);
    let ot = offsets_tag(tiled);
    let cloned = cloned_entries(s, from, e, big);
    lemma_cloned_image(w, s, cloned, e);
    let (wi, image) = cloned_image(w, s, cloned, e)->Ok_0;
    assert(cloned.contains_key(ct) && cloned.contains_key(ot));
    assert(!cloned.contains_key(counts_tag(!tiled)) && !cloned.contains_key(offsets_tag(!tiled)));
    assert(cloned_image(w, s, cloned, e) == cloned_chunks(w, s, cloned, e, tiled));
    let c = cloned[ct];
    let o = cloned[ot];
    let counts = chunk_counts(e, c, tiled)->Ok_0;
    let n = counts.len() as int;
    assert(n == c.value_count);
    assert forall|k: int| 0 <= k < counts.len() implies 0 <= #[trigger] counts[k] by {
        assert(counts[k] == number_at(e, c.value_bytes, c.entry_type, k));
    }
    lemma_chunks_copied(w, s, counts, o, e, tiled, n);
    lemma_copied_chunks(w, s, counts, o, e, tiled, n);
    let (w1, at) = copied_chunks(w, s, counts, o, e, tiled, n)->Ok_0;
    assert(w1 == wi);
    assert(w.len() <= at[i]);
    lemma_offsets_kept(s, from, out, entries, tags, lo, hi, at, tiled, e, big);
    assert(out.subrange(at[i], at[i] + counts[i]) =~= w1.subrange(at[i], at[i] + counts[i]));
}

/// The counts of the clone of a directory read back as they were, and its offsets as `at`.
proof fn lemma_offsets_kept(
    s: Seq<u8>,
    from: Map<u16, IfdEntry>,
    out: Seq<u8>,
    entries: Map<u16, IfdEntry>,
    tags: Map<u16, ClonedModel>,
    lo: int,
    hi: int,
    at: Seq<int>,
    tiled: bool,
    e: Endianness,
    big: bool,
)
    requires
        entries_clone(s, from, e, big),
        from.contains_key(counts_tag(tiled)),
        from.contains_key(offsets_tag(tiled)),
        tags.contains_key(counts_tag(tiled)),
        tags.contains_key(offsets_tag(tiled)),
        ({
            let cloned = cloned_entries(s, from, e, big);
            let o = cloned[offsets_tag(tiled)];
            &&& tags[counts_tag(tiled)] == cloned[counts_tag(tiled)]
            &&& tags[offsets_tag(tiled)] == with_offsets(e, o, at)
            &&& at.len() <= o.value_count
            &&& numbers_len(o.entry_type, at.len() as int) <= o.value_bytes.len()
            &&& forall|k: int| 0 <= k < at.len() ==> 0 <= #[trigger] at[k] <= number_max(o.entry_type)
        }),
        stores(entries, tags, out, lo, hi, e, big),
        0 <= lo,
        reads_back(from[counts_tag(tiled)], big),
        reads_back(from[offsets_tag(tiled)], big),
    ensures
        ({
            let cloned = cloned_entries(s, from, e, big);
            let again = cloned_entries(out, entries, e, big);
            let o = again[offsets_tag(tiled)];
            &&& again[counts_tag(tiled)] == cloned[counts_tag(tiled)]
            &&& o.entry_type == cloned[offsets_tag(tiled)].entry_type
            &&& o.value_bytes.len() == cloned[offsets_tag(tiled)].value_bytes.len()
            &&& forall|k: int|
                0 <= k < at.len() ==> number_at(e, o.value_bytes, o.entry_type, k) == #[trigger] at[k]
        }),
{
    let ct = counts_tag(tiled);
    let ot = offsets_tag(tiled);
    let cloned = cloned_entries(s, from, e, big);
    let o = cloned[ot];
    let o2 = with_offsets(e, o, at);
    let b = numbers_bytes(e, o.entry_type, at);
    lemma_numbers_bytes_len(e, o.entry_type, at);
    assert(o2.value_bytes.len() == o.value_bytes.len());
    assert(o2.value_bytes.subrange(0, b.len() as int) =~= b);
    lemma_numbers_at(e, o.entry_type, at, o2.value_bytes);
    assert(cloned_value(s, from[ct], e, big) is Ok);
    assert(cloned_value(s, from[ot], e, big) is Ok);
    let cty = choose|x: IFDEntryType| #[trigger] x.code() == from[ct].entry_type;
    assert(cty.code() == from[ct].entry_type);
    lemma_cloned_len(s, from[ct], cty, e, big);
    lemma_value_reads_back(out, entries, tags, lo, hi, ct, cty, e, big);
    let oty = choose|x: IFDEntryType| #[trigger] x.code() == from[ot].entry_type;
    assert(oty.code() == from[ot].entry_type);
    lemma_cloned_len(s, from[ot], oty, e, big);
    lemma_value_reads_back(out, entries, tags, lo, hi, ot, oty, e, big);
    assert(entries.dom().contains(ct) && entries.dom().contains(ot));
    let again = cloned_entries(out, entries, e, big);
    assert(again[ct] =~= tags[ct]);
    assert(again[ot] =~= tags[ot]);
}

} // verus!
