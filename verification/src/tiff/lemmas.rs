//! What a written directory reads back as.

use vstd::prelude::*;

use crate::endian::{
    lemma_u16_agree, lemma_u16_round_trip, lemma_u32_agree, lemma_u32_bytes_of_at,
    lemma_u32_round_trip, lemma_u64_agree, lemma_u64_bytes_of_at, lemma_u64_round_trip, u16_bytes,
    u32_bytes, u64_bytes, Endianness,
};
use crate::tiff::directory::{
    count_width, entry_at, entry_count_at, entry_pos, ifd_at, ifd_end, ifd_fits,
    offset_width, value_field, with_entries_at, word_at, IfdEntry, IfdModel, IfdType,
    STRIPBYTECOUNTS, STRIPOFFSETS, TILEBYTECOUNTS, TILEOFFSETS,
};
use crate::tiff::cloner::{lemma_copied_chunks, lemma_with_fields};
use crate::tiff::layout::{
    chunk_counts, cloned_child, cloned_children, cloned_chunks, cloned_entries, cloned_image,
    count_bytes, counts_tag, entries_bytes, entry_bytes, ifd_left, inline_field, offsets_tag,
    padded, placed_values, with_field, word_bytes, word_max, written_ifd, ClonedModel,
};
use crate::tiff::tags::{lemma_sorted_tags, sorted_tags};

verus! {

broadcast use crate::endian::group_widths;

/// Whether `a` and `b` have the same bytes from `lo` to `hi`.
pub open spec fn agree(a: Seq<u8>, b: Seq<u8>, lo: int, hi: int) -> bool {
    forall|i: int| lo <= i < hi ==> #[trigger] a[i] == b[i]
}

/// An integer is read back from where it was written.
pub proof fn lemma_word_round_trip(e: Endianness, s: Seq<u8>, p: int, v: int, big: bool)
    requires
        0 <= v <= word_max(big),
        0 <= p,
        p + offset_width(big) <= s.len(),
        s.subrange(p, p + offset_width(big)) == word_bytes(e, v, big),
    ensures
        word_at(e, s, p, big) == v,
{
    if big {
        lemma_u64_round_trip(e, s, p, v);
    } else {
        lemma_u32_round_trip(e, s, p, v);
    }
}

/// The bytes at a place are those of the integer read there.
pub proof fn lemma_bytes_of_at(e: Endianness, s: Seq<u8>, p: int, big: bool)
    requires
        0 <= p,
        p + offset_width(big) <= s.len(),
    ensures
        word_bytes(e, word_at(e, s, p, big), big) == s.subrange(p, p + offset_width(big)),
{
    if big {
        lemma_u64_bytes_of_at(e, s, p);
    } else {
        lemma_u32_bytes_of_at(e, s, p);
    }
}

/// The value field of an entry read back is the one that was written.
pub proof fn lemma_value_field(field: Seq<u8>, big: bool)
    requires
        field.len() == offset_width(big),
    ensures
        value_field(word_at(Endianness::Little, field, 0, big) as u64).len() == 8,
        value_field(word_at(Endianness::Little, field, 0, big) as u64).take(offset_width(big))
            == field,
{
    let e = Endianness::Little;
    let v = word_at(e, field, 0, big);
    lemma_bytes_of_at(e, field, 0, big);
    assert(v as u64 == v);
    let b = u64_bytes(e, v);
    assert(field.subrange(0, offset_width(big)) =~= field);
    if !big {
        assert(v % 0x1_0000_0000 == v);
        reveal(u64_bytes);
        assert(b.take(4) =~= u32_bytes(e, v));
    } else {
        assert(b.take(8) =~= b);
    }
}

/// A directory depends on its own bytes alone.
pub proof fn lemma_ifd_agree(
    a: Seq<u8>,
    b: Seq<u8>,
    p: int,
    e: Endianness,
    big: bool,
    ty: IfdType,
)
    requires
        0 <= p,
        ifd_fits(a, p, e, big),
        ifd_end(a, p, e, big) <= b.len(),
        agree(a, b, p, ifd_end(a, p, e, big)),
    ensures
        ifd_fits(b, p, e, big),
        ifd_end(b, p, e, big) == ifd_end(a, p, e, big),
        ifd_at(b, p, e, big, ty) == ifd_at(a, p, e, big, ty),
{
    if big {
        lemma_u64_agree(e, a, p, b, p);
    } else {
        lemma_u16_agree(e, a, p, b, p);
    }
    let n = entry_count_at(a, p, e, big);
    lemma_entries_agree(a, b, p + count_width(big), e, big, n);
    let q = entry_pos(p + count_width(big), n, big);
    lemma_word_agree(e, a, q, b, q, big);
}

proof fn lemma_entries_agree(a: Seq<u8>, b: Seq<u8>, p: int, e: Endianness, big: bool, n: int)
    requires
        0 <= p,
        0 <= n,
        agree(a, b, p, entry_pos(p, n, big)),
    ensures
        with_entries_at(Map::empty(), a, p, e, big, n) == with_entries_at(
            Map::empty(),
            b,
            p,
            e,
            big,
            n,
        ),
    decreases n,
{
    if n > 0 {
        lemma_entries_agree(a, b, p, e, big, n - 1);
        let q = entry_pos(p, n - 1, big);
        let w = offset_width(big);
        lemma_u16_agree(e, a, q, b, q);
        lemma_u16_agree(e, a, q + 2, b, q + 2);
        lemma_word_agree(e, a, q + 4, b, q + 4, big);
        lemma_word_agree(Endianness::Little, a, q + 4 + w, b, q + 4 + w, big);
    }
}

/// The entry that is written for a tag with the value field `field`.
pub open spec fn stored_entry(tag: u16, c: ClonedModel, field: Seq<u8>, big: bool) -> IfdEntry {
    IfdEntry {
        entry_tag: tag,
        entry_type: c.entry_type,
        value_count: c.value_count,
        value_offset: word_at(Endianness::Little, field, 0, big) as u64,
    }
}

proof fn lemma_entry_at(
    s: Seq<u8>,
    p: int,
    tag: u16,
    c: ClonedModel,
    field: Seq<u8>,
    e: Endianness,
    big: bool,
)
    requires
        0 <= p,
        entry_pos(p, 1, big) <= s.len(),
        field.len() == offset_width(big),
        c.value_count <= word_max(big),
        s.subrange(p, entry_pos(p, 1, big)) == entry_bytes(tag, c, field, e, big),
    ensures
        entry_at(s, p, e, big) == stored_entry(tag, c, field, big),
{
    let t = s.subrange(p, entry_pos(p, 1, big));
    let w = offset_width(big);
    assert(t.len() == 4 + 2 * w);
    assert(s.subrange(p, p + 2) =~= t.subrange(0, 2));
    assert(t.subrange(0, 2) =~= u16_bytes(e, tag as int));
    lemma_u16_round_trip(e, s, p, tag as int);
    assert(s.subrange(p + 2, p + 4) =~= t.subrange(2, 4));
    assert(t.subrange(2, 4) =~= u16_bytes(e, c.entry_type as int));
    lemma_u16_round_trip(e, s, p + 2, c.entry_type as int);
    assert(s.subrange(p + 4, p + 4 + w) =~= t.subrange(4, 4 + w));
    assert(t.subrange(4, 4 + w) =~= word_bytes(e, c.value_count as int, big));
    lemma_word_round_trip(e, s, p + 4, c.value_count as int, big);
    assert(t.subrange(4 + w, 4 + 2 * w) =~= field);
    assert forall|i: int| 0 <= i < w implies s[p + 4 + w + i] == field[i] by {
        assert(t.subrange(4 + w, 4 + 2 * w)[i] == t[4 + w + i]);
    }
    lemma_word_agree(Endianness::Little, s, p + 4 + w, field, 0, big);
}

/// An integer depends on its own bytes alone.
pub proof fn lemma_word_agree(
    e: Endianness,
    a: Seq<u8>,
    p: int,
    b: Seq<u8>,
    q: int,
    big: bool,
)
    requires
        forall|i: int| 0 <= i < offset_width(big) ==> #[trigger] a[p + i] == b[q + i],
    ensures
        word_at(e, a, p, big) == word_at(e, b, q, big),
{
    if big {
        lemma_u64_agree(e, a, p, b, q);
    } else {
        lemma_u32_agree(e, a, p, b, q);
    }
}

/// Whether `field` is the value field for the value of `c`: the value itself where it fits, else
/// the place in `s`, not before `lo` and not past `hi`, where it stands.
pub open spec fn holds_value(
    s: Seq<u8>,
    lo: int,
    hi: int,
    c: ClonedModel,
    field: Seq<u8>,
    e: Endianness,
    big: bool,
) -> bool {
    let v = c.value_bytes;
    let o = word_at(e, field, 0, big);
    &&& field.len() == offset_width(big)
    &&& if v.len() <= offset_width(big) {
        field == inline_field(v, big)
    } else {
        &&& lo <= o
        &&& o + v.len() <= hi <= s.len()
        &&& s.subrange(o, o + v.len()) == v
    }
}

/// Whether two values that do not fit their entries do not overlap.
pub open spec fn apart(
    c: ClonedModel,
    c_field: Seq<u8>,
    d: ClonedModel,
    d_field: Seq<u8>,
    e: Endianness,
    big: bool,
) -> bool {
    let p = word_at(e, c_field, 0, big);
    let q = word_at(e, d_field, 0, big);
    c.value_bytes.len() <= offset_width(big) || d.value_bytes.len() <= offset_width(big) || p
        + c.value_bytes.len() <= q || q + d.value_bytes.len() <= p
}

/// Values that do not fit their entries are put behind what was there, one after the other.
pub proof fn lemma_placed_values(
    w: Seq<u8>,
    m: Map<u16, ClonedModel>,
    ks: Seq<u16>,
    e: Endianness,
    big: bool,
)
    requires
        placed_values(w, m, ks, e, big) is Some,
    ensures
        ({
            let (w1, fields) = placed_values(w, m, ks, e, big)->0;
            &&& w.len() <= w1.len()
            &&& w1.subrange(0, w.len() as int) == w
            &&& fields.len() == ks.len()
            &&& forall|i: int|
                0 <= i < ks.len() ==> holds_value(
                    w1,
                    w.len() as int,
                    w1.len() as int,
                    m[ks[i]],
                    #[trigger] fields[i],
                    e,
                    big,
                )
            &&& forall|i: int, j: int|
                0 <= i < j < ks.len() ==> apart(
                    m[ks[i]],
                    #[trigger] fields[i],
                    m[ks[j]],
                    #[trigger] fields[j],
                    e,
                    big,
                )
        }),
    decreases ks.len(),
{
    let (w1, fields) = placed_values(w, m, ks, e, big)->0;
    if ks.len() == 0 {
        assert(w1.subrange(0, w.len() as int) =~= w);
    } else {
        let less = ks.drop_last();
        lemma_placed_values(w, m, less, e, big);
        let (w0, fs) = placed_values(w, m, less, e, big)->0;
        assert(w1.subrange(0, w.len() as int) =~= w0.subrange(0, w.len() as int));
        let v = m[ks.last()].value_bytes;
        assert forall|i: int| 0 <= i < ks.len() implies holds_value(
            w1,
            w.len() as int,
            w1.len() as int,
            m[ks[i]],
            #[trigger] fields[i],
            e,
            big,
        ) by {
            if i < less.len() {
                assert(ks[i] == less[i]);
                assert(fields[i] == fs[i]);
                let c = m[ks[i]];
                if c.value_bytes.len() > offset_width(big) {
                    let o = word_at(e, fs[i], 0, big);
                    assert(w1.subrange(o, o + c.value_bytes.len()) =~= w0.subrange(
                        o,
                        o + c.value_bytes.len(),
                    ));
                }
            } else if v.len() > offset_width(big) {
                let o = w0.len() as int;
                let field = word_bytes(e, o, big);
                assert(field.subrange(0, offset_width(big)) =~= field);
                lemma_word_round_trip(e, field, 0, o, big);
                assert(w1.subrange(o, o + v.len()) =~= v);
            }
        }
        assert forall|i: int, j: int| 0 <= i < j < ks.len() implies apart(
            m[ks[i]],
            #[trigger] fields[i],
            m[ks[j]],
            #[trigger] fields[j],
            e,
            big,
        ) by {
            assert(ks[i] == less[i]);
            assert(fields[i] == fs[i]);
            if j < less.len() {
                assert(ks[j] == less[j]);
                assert(fields[j] == fs[j]);
            } else if v.len() > offset_width(big) {
                let o = w0.len() as int;
                let field = word_bytes(e, o, big);
                assert(field.subrange(0, offset_width(big)) =~= field);
                lemma_word_round_trip(e, field, 0, o, big);
                assert(holds_value(
                    w0,
                    w.len() as int,
                    w0.len() as int,
                    m[less[i]],
                    fs[i],
                    e,
                    big,
                ));
            }
        }
    }
}

/// Each entry of a directory takes its place among the bytes of all.
pub proof fn lemma_entries_bytes(
    m: Map<u16, ClonedModel>,
    ks: Seq<u16>,
    fields: Seq<Seq<u8>>,
    e: Endianness,
    big: bool,
)
    requires
        fields.len() == ks.len(),
        forall|i: int| 0 <= i < fields.len() ==> (#[trigger] fields[i]).len() == offset_width(big),
    ensures
        entries_bytes(m, ks, fields, e, big).len() == entry_pos(0, ks.len() as int, big),
        forall|i: int|
            0 <= i < ks.len() ==> entries_bytes(m, ks, fields, e, big).subrange(
                entry_pos(0, i, big),
                entry_pos(0, i + 1, big),
            ) == entry_bytes(#[trigger] ks[i], m[ks[i]], fields[i], e, big),
    decreases ks.len(),
{
    if ks.len() > 0 {
        let less = ks.drop_last();
        let fs = fields.drop_last();
        lemma_entries_bytes(m, less, fs, e, big);
        let all = entries_bytes(m, ks, fields, e, big);
        let head = entries_bytes(m, less, fs, e, big);
        let tail = entry_bytes(ks.last(), m[ks.last()], fields.last(), e, big);
        assert(fields.last().len() == offset_width(big));
        assert(tail.len() == entry_pos(0, 1, big));
        assert forall|i: int| 0 <= i < ks.len() implies all.subrange(
            entry_pos(0, i, big),
            entry_pos(0, i + 1, big),
        ) == entry_bytes(#[trigger] ks[i], m[ks[i]], fields[i], e, big) by {
            if i < less.len() {
                assert(less[i] == ks[i]);
                assert(fs[i] == fields[i]);
                assert(all.subrange(entry_pos(0, i, big), entry_pos(0, i + 1, big))
                    =~= head.subrange(entry_pos(0, i, big), entry_pos(0, i + 1, big)));
            } else {
                assert(all.subrange(entry_pos(0, i, big), entry_pos(0, i + 1, big)) =~= tail);
            }
        }
    }
}

/// Entries with different tags are all kept.
proof fn lemma_with_entries(
    s: Seq<u8>,
    p: int,
    e: Endianness,
    big: bool,
    n: int,
    entries: Seq<IfdEntry>,
)
    requires
        0 <= n <= entries.len(),
        forall|i: int|
            0 <= i < n ==> entry_at(s, entry_pos(p, i, big), e, big) == #[trigger] entries[i],
        forall|i: int, j: int|
            0 <= i < j < entries.len() ==> (#[trigger] entries[i]).entry_tag != (
            #[trigger] entries[j]).entry_tag,
    ensures
        ({
            let m = with_entries_at(Map::empty(), s, p, e, big, n);
            &&& forall|i: int|
                0 <= i < n ==> m.contains_key((#[trigger] entries[i]).entry_tag)
                    && m[entries[i].entry_tag] == entries[i]
            &&& forall|t: u16| #[trigger]
                m.contains_key(t) ==> exists|i: int|
                    0 <= i < n && (#[trigger] entries[i]).entry_tag == t
        }),
    decreases n,
{
    if n > 0 {
        lemma_with_entries(s, p, e, big, n - 1, entries);
        let less = with_entries_at(Map::empty(), s, p, e, big, n - 1);
        let m = with_entries_at(Map::empty(), s, p, e, big, n);
        let last = entries[n - 1];
        assert(m == less.insert(last.entry_tag, last));
        assert forall|t: u16| #[trigger] m.contains_key(t) implies exists|i: int|
            0 <= i < n && (#[trigger] entries[i]).entry_tag == t by {
            if t == last.entry_tag {
                assert(entries[n - 1].entry_tag == t);
            } else {
                assert(less.contains_key(t));
            }
        }
    }
}

/// The value field of an entry.
pub open spec fn field_of(entry: IfdEntry, big: bool) -> Seq<u8> {
    value_field(entry.value_offset).take(offset_width(big))
}

/// Whether `entries` are those of a directory that holds `m`, with the values that do not fit
/// their entries in `s`, not before `lo` and not past `hi`.
pub open spec fn stores(
    entries: Map<u16, IfdEntry>,
    m: Map<u16, ClonedModel>,
    s: Seq<u8>,
    lo: int,
    hi: int,
    e: Endianness,
    big: bool,
) -> bool {
    &&& entries.dom() == m.dom()
    &&& forall|t: u16| #[trigger]
        m.contains_key(t) ==> {
            &&& entries[t].entry_tag == t
            &&& entries[t].entry_type == m[t].entry_type
            &&& entries[t].value_count == m[t].value_count
            &&& holds_value(s, lo, hi, m[t], field_of(entries[t], big), e, big)
        }
}

/// Whether no two values of a directory that do not fit their entries overlap.
pub open spec fn all_apart(
    entries: Map<u16, IfdEntry>,
    m: Map<u16, ClonedModel>,
    e: Endianness,
    big: bool,
) -> bool {
    forall|t: u16, u: u16|
        t != u && #[trigger] m.contains_key(t) && #[trigger] m.contains_key(u) ==> apart(
            m[t],
            field_of(entries[t], big),
            m[u],
            field_of(entries[u], big),
            e,
            big,
        )
}

/// A written directory reads back as what was written.
#[verifier::spinoff_prover]
#[verifier::rlimit(30)]
pub proof fn lemma_written_ifd(
    w: Seq<u8>,
    m: Map<u16, ClonedModel>,
    e: Endianness,
    big: bool,
    ty: IfdType,
)
    requires
        written_ifd(w, m, e, big) is Some,
    ensures
        ({
            let (w2, at) = written_ifd(w, m, e, big)->0;
            let full = w2 + word_bytes(e, 0, big);
            &&& w.len() <= at <= w2.len()
            &&& w2.subrange(0, w.len() as int) == w
            &&& ifd_fits(full, at, e, big)
            &&& ifd_end(full, at, e, big) == full.len()
            &&& stores(
                ifd_at(full, at, e, big, ty).entries,
                m,
                full,
                w.len() as int,
                at,
                e,
                big,
            )
            &&& all_apart(ifd_at(full, at, e, big, ty).entries, m, e, big)
        }),
{
    let ks = sorted_tags(m.dom());
    lemma_sorted_tags(m.dom());
    let (w1, fields) = placed_values(w, m, ks, e, big)->0;
    lemma_placed_values(w, m, ks, e, big);
    let start = padded(w1);
    let cb = count_bytes(e, ks.len() as int, big);
    let eb = entries_bytes(m, ks, fields, e, big);
    let (w2, at) = written_ifd(w, m, e, big)->0;
    let full = w2 + word_bytes(e, 0, big);
    assert(w2.subrange(0, w.len() as int) =~= w1.subrange(0, w.len() as int));
    assert forall|i: int| 0 <= i < fields.len() implies (#[trigger] fields[i]).len()
        == offset_width(big) by {
        assert(holds_value(
            w1,
            w.len() as int,
            w1.len() as int,
            m[ks[i]],
            fields[i],
            e,
            big,
        ));
    }
    lemma_entries_bytes(m, ks, fields, e, big);
    // the number of entries
    assert(full.subrange(at, at + count_width(big)) =~= cb);
    if big {
        lemma_u64_round_trip(e, full, at, ks.len() as int);
    } else {
        lemma_u16_round_trip(e, full, at, ks.len() as int);
    }
    let n = ks.len() as int;
    let p = at + count_width(big);
    assert(entry_count_at(full, at, e, big) == n);
    // the entries
    let entries = Seq::new(ks.len(), |i: int| stored_entry(ks[i], m[ks[i]], fields[i], big));
    assert forall|i: int| 0 <= i < n implies entry_at(full, entry_pos(p, i, big), e, big)
        == #[trigger] entries[i] by {
        let q = entry_pos(p, i, big);
        assert(full.subrange(q, entry_pos(q, 1, big)) =~= eb.subrange(
            entry_pos(0, i, big),
            entry_pos(0, i + 1, big),
        ));
        assert(eb.subrange(entry_pos(0, i, big), entry_pos(0, i + 1, big)) == entry_bytes(
            ks[i],
            m[ks[i]],
            fields[i],
            e,
            big,
        ));
        assert(fields[i].len() == offset_width(big));
        assert(m[ks[i]].value_count <= word_max(big));
        lemma_entry_at(full, q, ks[i], m[ks[i]], fields[i], e, big);
    }
    lemma_with_entries(full, p, e, big, n, entries);
    let read = ifd_at(full, at, e, big, ty).entries;
    assert(read == with_entries_at(Map::empty(), full, p, e, big, n));
    assert forall|t: u16| #[trigger] m.contains_key(t) implies read.contains_key(t) && {
        &&& read[t].entry_tag == t
        &&& read[t].entry_type == m[t].entry_type
        &&& read[t].value_count == m[t].value_count
        &&& holds_value(full, w.len() as int, at, m[t], field_of(read[t], big), e, big)
    } by {
        assert(ks.contains(t));
        let i = choose|i: int| 0 <= i < ks.len() && ks[i] == t;
        assert(entries[i].entry_tag == t);
        assert(fields[i].len() == offset_width(big));
        lemma_value_field(fields[i], big);
        assert(holds_value(
            w1,
            w.len() as int,
            w1.len() as int,
            m[ks[i]],
            fields[i],
            e,
            big,
        ));
        let v = m[t].value_bytes;
        if v.len() > offset_width(big) {
            let o = word_at(e, fields[i], 0, big);
            assert(full.subrange(o, o + v.len()) =~= w1.subrange(o, o + v.len()));
        }
    }
    assert forall|t: u16, u: u16|
        t != u && #[trigger] m.contains_key(t) && #[trigger] m.contains_key(u) implies apart(
        m[t],
        field_of(read[t], big),
        m[u],
        field_of(read[u], big),
        e,
        big,
    ) by {
        assert(ks.contains(t));
        assert(ks.contains(u));
        let i = choose|i: int| 0 <= i < ks.len() && ks[i] == t;
        let j = choose|j: int| 0 <= j < ks.len() && ks[j] == u;
        assert(entries[i].entry_tag == t);
        assert(entries[j].entry_tag == u);
        assert(fields[i].len() == offset_width(big));
        assert(fields[j].len() == offset_width(big));
        lemma_value_field(fields[i], big);
        lemma_value_field(fields[j], big);
        if i < j {
            assert(apart(m[ks[i]], fields[i], m[ks[j]], fields[j], e, big));
        } else {
            assert(apart(m[ks[j]], fields[j], m[ks[i]], fields[i], e, big));
        }
    }
    assert forall|t: u16| #[trigger] read.contains_key(t) implies m.contains_key(t) by {
        let i = choose|i: int| 0 <= i < n && (#[trigger] entries[i]).entry_tag == t;
        assert(ks.contains(ks[i]));
    }
    assert(read.dom() =~= m.dom());
}

/// A written directory starts at a multiple of four, behind what was there and the values that do
/// not fit their entries; each of its entries is left with its value field.
pub proof fn lemma_ifd_left(w: Seq<u8>, m: Map<u16, ClonedModel>, e: Endianness, big: bool)
    requires
        written_ifd(w, m, e, big) is Some,
    ensures
        ({
            let (w2, at) = written_ifd(w, m, e, big)->0;
            let left = ifd_left(w, m, e, big);
            &&& at % 4 == 0
            &&& w.len() <= at <= w2.len()
            &&& w2.subrange(0, w.len() as int) == w
            &&& left.dom() == m.dom()
            &&& forall|t: u16| #[trigger]
                m.contains_key(t) ==> {
                    &&& left[t] == with_field(m[t], left[t].value_bytes)
                    &&& holds_value(w2, w.len() as int, at, m[t], left[t].value_bytes, e, big)
                }
        }),
{
    let ks = sorted_tags(m.dom());
    lemma_sorted_tags(m.dom());
    let (w1, fields) = placed_values(w, m, ks, e, big)->0;
    lemma_placed_values(w, m, ks, e, big);
    let (w2, at) = written_ifd(w, m, e, big)->0;
    let left = ifd_left(w, m, e, big);
    assert(ks.take(ks.len() as int) =~= ks);
    assert forall|i: int| 0 <= i < ks.len() implies m.contains_key(#[trigger] ks[i]) by {
        assert(ks.contains(ks[i]));
    }
    lemma_with_fields(m, ks, fields);
    assert(w2.subrange(0, w.len() as int) =~= w1.subrange(0, w.len() as int));
    assert forall|t: u16| #[trigger] m.contains_key(t) implies {
        &&& left[t] == with_field(m[t], left[t].value_bytes)
        &&& holds_value(w2, w.len() as int, at, m[t], left[t].value_bytes, e, big)
    } by {
        assert(ks.contains(t));
        let i = choose|i: int| 0 <= i < ks.len() && ks[i] == t;
        assert(left[ks[i]] == with_field(m[ks[i]], fields[i]));
        assert(holds_value(w1, w.len() as int, w1.len() as int, m[ks[i]], fields[i], e, big));
        let v = m[t].value_bytes;
        if v.len() > offset_width(big) {
            let o = word_at(e, fields[i], 0, big);
            assert(w2.subrange(o, o + v.len()) =~= w1.subrange(o, o + v.len()));
        }
    }
}

/// Image data is put behind what was there, and only the offsets of the directory change.
pub proof fn lemma_cloned_image(w: Seq<u8>, s: Seq<u8>, m: Map<u16, ClonedModel>, e: Endianness)
    requires
        cloned_image(w, s, m, e) is Ok,
    ensures
        ({
            let (w1, m1) = cloned_image(w, s, m, e)->Ok_0;
            &&& w.len() <= w1.len()
            &&& w1.subrange(0, w.len() as int) == w
            &&& m1.dom() == m.dom()
            &&& forall|t: u16|
                t != STRIPOFFSETS && t != TILEOFFSETS && m.contains_key(t) ==> #[trigger] m1[t]
                    == m[t]
            &&& forall|t: u16|
                m.contains_key(t) ==> (#[trigger] m1[t]).value_count == m[t].value_count
                    && m1[t].entry_type == m[t].entry_type && m1[t].entry_tag == m[t].entry_tag
        }),
{
    let (w1, m1) = cloned_image(w, s, m, e)->Ok_0;
    let strips = m.contains_key(STRIPBYTECOUNTS) && m.contains_key(STRIPOFFSETS);
    let tiles = m.contains_key(TILEBYTECOUNTS) && m.contains_key(TILEOFFSETS);
    if strips && !m.contains_key(TILEBYTECOUNTS) && !m.contains_key(TILEOFFSETS) {
        lemma_cloned_chunks(w, s, m, e, false);
    } else if tiles && !m.contains_key(STRIPBYTECOUNTS) && !m.contains_key(STRIPOFFSETS) {
        lemma_cloned_chunks(w, s, m, e, true);
    } else {
        assert(w.subrange(0, w.len() as int) =~= w);
    }
}

proof fn lemma_cloned_chunks(
    w: Seq<u8>,
    s: Seq<u8>,
    m: Map<u16, ClonedModel>,
    e: Endianness,
    tiled: bool,
)
    requires
        cloned_chunks(w, s, m, e, tiled) is Ok,
        m.contains_key(offsets_tag(tiled)),
    ensures
        ({
            let (w1, m1) = cloned_chunks(w, s, m, e, tiled)->Ok_0;
            &&& w.len() <= w1.len()
            &&& w1.subrange(0, w.len() as int) == w
            &&& m1.dom() == m.dom()
            &&& forall|t: u16|
                t != offsets_tag(tiled) && m.contains_key(t) ==> #[trigger] m1[t] == m[t]
            &&& m1[offsets_tag(tiled)].value_count == m[offsets_tag(tiled)].value_count
            &&& m1[offsets_tag(tiled)].entry_type == m[offsets_tag(tiled)].entry_type
            &&& m1[offsets_tag(tiled)].entry_tag == m[offsets_tag(tiled)].entry_tag
        }),
{
    let counts = chunk_counts(e, m[counts_tag(tiled)], tiled)->Ok_0;
    let o = m[offsets_tag(tiled)];
    lemma_copied_chunks(w, s, counts, o, e, tiled, counts.len() as int);
    let (_, m1) = cloned_chunks(w, s, m, e, tiled)->Ok_0;
    assert(m1.dom() =~= m.dom());
}

/// A cloned directory stands behind what was there and can be read.
pub proof fn lemma_cloned_child(
    w: Seq<u8>,
    s: Seq<u8>,
    entries: Map<u16, IfdEntry>,
    e: Endianness,
    big: bool,
)
    requires
        cloned_child(w, s, entries, e, big) is Some,
    ensures
        ({
            let (w1, at) = cloned_child(w, s, entries, e, big)->0;
            &&& w.len() <= at <= w1.len()
            &&& w1.subrange(0, w.len() as int) == w
            &&& ifd_fits(w1, at, e, big)
        }),
{
    reveal(cloned_child);
    let m = cloned_entries(s, entries, e, big);
    lemma_cloned_image(w, s, m, e);
    let (w1, m1) = cloned_image(w, s, m, e)->Ok_0;
    lemma_written_ifd(w1, m1, e, big, IfdType::Subfile);
    let (w2, at) = written_ifd(w1, m1, e, big)->0;
    let full = w2 + word_bytes(e, 0, big);
    assert(full.subrange(0, w.len() as int) =~= w) by {
        assert forall|i: int| 0 <= i < w.len() implies full[i] == w[i] by {
            assert(w2.subrange(0, w1.len() as int)[i] == w1[i]);
            assert(w1.subrange(0, w.len() as int)[i] == w[i]);
        }
    }
}

/// Cloned directories stand behind what was there and can be read.
pub proof fn lemma_cloned_children(
    w: Seq<u8>,
    s: Seq<u8>,
    children: Seq<IfdModel>,
    e: Endianness,
    big: bool,
)
    requires
        cloned_children(w, s, children, e, big) is Some,
    ensures
        ({
            let (w1, at) = cloned_children(w, s, children, e, big)->0;
            &&& w.len() <= w1.len()
            &&& w1.subrange(0, w.len() as int) == w
            &&& at.len() == children.len()
            &&& forall|i: int|
                0 <= i < at.len() ==> w.len() <= #[trigger] at[i] <= w1.len() && ifd_fits(
                    w1,
                    at[i],
                    e,
                    big,
                )
        }),
    decreases children.len(),
{
    let (w1, at) = cloned_children(w, s, children, e, big)->0;
    if children.len() == 0 {
        assert(w1.subrange(0, w.len() as int) =~= w);
    } else {
        let less = children.drop_last();
        lemma_cloned_children(w, s, less, e, big);
        let (w0, at0) = cloned_children(w, s, less, e, big)->0;
        lemma_cloned_child(w0, s, children.last().entries, e, big);
        assert(w1.subrange(0, w.len() as int) =~= w) by {
            assert forall|i: int| 0 <= i < w.len() implies w1[i] == w[i] by {
                assert(w1.subrange(0, w0.len() as int)[i] == w0[i]);
                assert(w0.subrange(0, w.len() as int)[i] == w[i]);
            }
        }
        assert(agree(w0, w1, 0, w0.len() as int)) by {
            assert forall|i: int| 0 <= i < w0.len() implies #[trigger] w0[i] == w1[i] by {
                assert(w1.subrange(0, w0.len() as int)[i] == w0[i]);
            }
        }
        assert forall|i: int| 0 <= i < at.len() implies w.len() <= #[trigger] at[i] <= w1.len()
            && ifd_fits(w1, at[i], e, big) by {
            if i < at0.len() {
                assert(at[i] == at0[i]);
                lemma_ifd_agree(w0, w1, at[i], e, big, IfdType::Subfile);
            }
        }
    }
}

} // verus!
