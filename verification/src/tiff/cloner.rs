//! Cloning a file, with tags added to its page.

use vstd::prelude::*;

use std::collections::{BTreeMap, HashMap};

use atree::{Arena, Token};
use vstd::slice::slice_subrange;
use vstd::std_specs::iter::IteratorSpec;

use crate::endian::{
    put_bytes, put_u16, put_u32, put_u64, read_to_vec, read_u16, read_u32, read_u64, Endianness,
};
use crate::error::Error;
use crate::tiff::directory::{
    decode_offset, value_field_bytes, IFDEntryType, IfdEntry, IfdModel, IfdType, ImageFileDirectory,
    EXIFIFD_TAG, GPSIFD_TAG, STRIPBYTECOUNTS, STRIPOFFSETS, SUBFILE_TAG, TILEBYTECOUNTS,
    TILEOFFSETS,
};
use crate::tiff::directory::{offset_width, value_field};
use crate::tiff::layout::IfdClonedEntry;
use crate::tiff::layout::{
    blank_header, child_error, child_written, children_error, children_written, chunk_counts,
    chunks_left, cloned_child, cloned_children, cloned_chunks, cloned_entries, cloned_entry,
    cloned_image, cloned_tiff, cloned_value, copied_chunks, copied_until, count_bytes,
    count_mismatch, counts_fitting, counts_tag, entries_bytes, entries_clone, entries_error,
    entries_left, entry_bytes, fitting, has_chunks, header_slot, ifd_left, ifd_written, image_left,
    inline_field, invalid_chunk, is_number_type, is_offset_type, models, number_at, number_max,
    numbers_bytes, numbers_len, offsets_tag, padded, patched, placed_until, placed_values,
    places_of, tiff_error, tiff_written, with_field, with_fields, with_offsets, with_places,
    word_bytes, word_max, words_bytes, written_ifd, zeros, ClonedModel,
};
use crate::tiff::lemmas::{holds_value, lemma_ifd_left};
use crate::tiff::map::out_of_range;
use crate::tiff::tags::sorted_keys;
use crate::tiff::tags::{increasing, lemma_sorted_tags};
use crate::tiff::tree::{arena_children_data, arena_data};
use crate::tiff::tree::{arena_nodes, tree_children, tree_page};

verus! {

broadcast use {
    vstd::std_specs::hash::group_hash_axioms,
    vstd::std_specs::btree::group_btree_axioms,
    vstd::laws_cmp::group_laws_cmp,
    crate::endian::group_widths,
};

/// Writes a clone of a file.
pub struct TiffCloner {
    endianness: Endianness,
    big_tiff: bool,
    first_idf_offset: u64,
    writer: Vec<u8>,
    additional_ifds: BTreeMap<u16, IfdClonedEntry>,
}

/// What a [`TiffCloner`] holds.
#[verifier::ext_equal]
pub struct ClonerModel {
    pub endianness: Endianness,
    pub big_tiff: bool,
    /// What has been written so far.
    pub written: Seq<u8>,
    /// The tags that the page of the clone has in place of the source's.
    pub added: Map<u16, ClonedModel>,
}

impl View for TiffCloner {
    type V = ClonerModel;

    closed spec fn view(&self) -> ClonerModel {
        ClonerModel {
            endianness: self.endianness,
            big_tiff: self.big_tiff,
            written: self.writer@,
            added: models(self.additional_ifds@),
        }
    }
}

impl TiffCloner {
    /// Whether the header has been written and its slot is known.
    pub closed spec fn wf(&self) -> bool {
        &&& self.first_idf_offset == header_slot(self.big_tiff)
        &&& self.writer@.len() >= header_slot(self.big_tiff) + offset_width(self.big_tiff)
    }

    /// A cloner that has written the header of a file with the given layout.
    pub fn new(endianness: Endianness, big_tiff: bool) -> (r: TiffCloner)
        ensures
            r.wf(),
            r@ == (ClonerModel {
                endianness,
                big_tiff,
                written: blank_header(endianness, big_tiff),
                added: Map::empty(),
            }),
    {
        let mut tc = TiffCloner {
            endianness,
            big_tiff,
            first_idf_offset: 0,
            writer: Vec::new(),
            additional_ifds: BTreeMap::new(),
        };
        tc.write_header();
        proof {
            assert(tc@.added =~= Map::<u16, ClonedModel>::empty());
        }
        tc
    }

    /// What has been written.
    pub fn into_inner(self) -> (r: Vec<u8>)
        ensures
            r@ == self@.written,
    {
        self.writer
    }

    /// Where the next byte goes.
    fn offset(&self) -> (r: u64)
        ensures
            r == self@.written.len(),
    {
        self.writer.len() as u64
    }

    fn pad_word_boundary(&mut self)
        requires
            old(self).wf(),
        ensures
            final(self).wf(),
            final(self)@ == (ClonerModel { written: padded(old(self)@.written), ..old(self)@ }),
    {
        let over: u64 = self.offset() % 4;
        if over != 0 {
            let mut pad: u64 = 4 - over;
            let ghost whole: int = pad as int;
            while pad > 0
                invariant
                    self.wf(),
                    0 <= pad <= whole,
                    self.endianness == old(self).endianness,
                    self.big_tiff == old(self).big_tiff,
                    self.additional_ifds == old(self).additional_ifds,
                    self.writer@ == old(self).writer@ + zeros(whole - pad),
                decreases pad,
            {
                self.writer.push(0);
                pad = pad - 1;
                assert(self.writer@ =~= old(self).writer@ + zeros(whole - pad));
            }
        }
        assert(self.writer@ =~= padded(old(self).writer@));
    }

    fn write_header(&mut self) -> (r: u64)
        requires
            old(self).writer@.len() == 0,
        ensures
            final(self).wf(),
            r == header_slot(old(self)@.big_tiff),
            final(self)@ == (ClonerModel {
                written: blank_header(old(self)@.endianness, old(self)@.big_tiff),
                ..old(self)@
            }),
    {
        let mark: u8 = match self.endianness {
            Endianness::Big => 0x4d,
            Endianness::Little => 0x49,
        };
        self.writer.push(mark);
        self.writer.push(mark);
        if self.big_tiff {
            put_u16(&mut self.writer, 43, self.endianness);
            put_u16(&mut self.writer, 8, self.endianness);
            put_u16(&mut self.writer, 0, self.endianness);
            self.first_idf_offset = self.offset();
            put_u64(&mut self.writer, 0, self.endianness);
        } else {
            put_u16(&mut self.writer, 42, self.endianness);
            self.first_idf_offset = self.offset();
            put_u32(&mut self.writer, 0, self.endianness);
        }
        assert(self.writer@ =~= blank_header(self.endianness, self.big_tiff));
        self.first_idf_offset
    }

    /// Appends the number of entries that a directory starts with.
    fn write_entry_count(&mut self, count: usize) -> (r: Result<(), Error>)
        requires
            old(self).wf(),
        ensures
            final(self).wf(),
            if old(self)@.big_tiff || count <= u16::MAX {
                &&& r is Ok
                &&& final(self)@ == (ClonerModel {
                    written: old(self)@.written + count_bytes(
                        old(self)@.endianness,
                        count as int,
                        old(self)@.big_tiff,
                    ),
                    ..old(self)@
                })
            } else {
                r == Err::<(), Error>(out_of_range()) && final(self)@ == old(self)@
            },
    {
        if self.big_tiff {
            put_u64(&mut self.writer, count as u64, self.endianness);
        } else {
            if count > u16::MAX as usize {
                return Err(Error::InvalidAsset("value out of range"));
            }
            put_u16(&mut self.writer, count as u16, self.endianness);
        }
        Ok(())
    }

    /// Appends an integer of the width of an offset.
    fn write_word(&mut self, v: u64) -> (r: Result<(), Error>)
        requires
            old(self).wf(),
        ensures
            final(self).wf(),
            if v <= word_max(old(self)@.big_tiff) {
                &&& r is Ok
                &&& final(self)@ == (ClonerModel {
                    written: old(self)@.written + word_bytes(
                        old(self)@.endianness,
                        v as int,
                        old(self)@.big_tiff,
                    ),
                    ..old(self)@
                })
            } else {
                r == Err::<(), Error>(out_of_range()) && final(self)@ == old(self)@
            },
    {
        if self.big_tiff {
            put_u64(&mut self.writer, v, self.endianness);
        } else {
            if v > u32::MAX as u64 {
                return Err(Error::InvalidAsset("value out of range"));
            }
            put_u32(&mut self.writer, v as u32, self.endianness);
        }
        Ok(())
    }

    /// The page of the clone gets `entry` in place of any other for the same tag.
    pub fn add_target_tag(&mut self, entry: IfdClonedEntry)
        requires
            old(self).wf(),
        ensures
            final(self).wf(),
            final(self)@ == (ClonerModel {
                added: old(self)@.added.insert(entry.entry_tag, entry@),
                ..old(self)@
            }),
    {
        self.additional_ifds.insert(entry.entry_tag, entry);
        assert(self@.added =~= old(self)@.added.insert(entry.entry_tag, entry@));
    }
}

/// The bytes of an integer of the width of an offset.
fn word_vec(v: u64, e: Endianness, big: bool) -> (r: Result<Vec<u8>, Error>)
    ensures
        match r {
            Ok(b) => v <= word_max(big) && b@ == word_bytes(e, v as int, big),
            Err(err) => v > word_max(big) && err == out_of_range(),
        },
{
    let mut b: Vec<u8> = Vec::new();
    if big {
        put_u64(&mut b, v, e);
    } else {
        if v > u32::MAX as u64 {
            return Err(Error::InvalidAsset("value out of range"));
        }
        put_u32(&mut b, v as u32, e);
    }
    proof {
        assert(b@ =~= word_bytes(e, v as int, big));
    }
    Ok(b)
}

/// A type is known by its code.
pub proof fn lemma_code_injective(a: IFDEntryType, b: IFDEntryType)
    requires
        a.code() == b.code(),
    ensures
        a == b,
{
}

/// The value of an entry of the source.
fn clone_value(source: &[u8], entry: IfdEntry, e: Endianness, big: bool) -> (r: Result<
    Vec<u8>,
    Error,
>)
    ensures
        match r {
            Ok(v) => cloned_value(source@, entry, e, big) == Ok::<Seq<u8>, Error>(v@),
            Err(err) => cloned_value(source@, entry, e, big) == Err::<Seq<u8>, Error>(err),
        },
{
    let entry_type: IFDEntryType = match IFDEntryType::from_u16(entry.entry_type) {
        Some(t) => t,
        None => return Err(Error::UnsupportedType),
    };
    proof {
        let t = choose|t: IFDEntryType| #[trigger] t.code() == entry.entry_type;
        assert(entry_type.code() == entry.entry_type);
        lemma_code_injective(entry_type, t);
    }
    let unit: u64 = match entry_type {
        IFDEntryType::Byte | IFDEntryType::Ascii | IFDEntryType::Sbyte | IFDEntryType::Undefined =>
        1,
        IFDEntryType::Short | IFDEntryType::Sshort => 2,
        IFDEntryType::Long | IFDEntryType::Slong | IFDEntryType::Float | IFDEntryType::Ifd => 4,
        IFDEntryType::Rational
        | IFDEntryType::Srational
        | IFDEntryType::Double
        | IFDEntryType::Long8
        | IFDEntryType::Slong8
        | IFDEntryType::Ifd8 => 8,
    };
    let len: u64 = match entry.value_count.checked_mul(unit) {
        Some(len) => len,
        None => return Err(Error::InvalidAsset("value out of range")),
    };
    let at: u64 = decode_offset(entry.value_offset, e, big)?;
    if unit == 8 {
        return read_to_vec(source, at, len);
    }
    if len > usize::MAX as u64 {
        return Err(Error::InvalidAsset("value out of range"));
    }
    if len <= 4 || big && len <= 8 {
        let field = value_field_bytes(entry.value_offset);
        let mut data: Vec<u8> = Vec::new();
        put_bytes(&mut data, slice_subrange(field.as_slice(), 0, len as usize));
        proof {
            assert(data@ =~= value_field(entry.value_offset).take(len as int));
        }
        Ok(data)
    } else {
        match read_to_vec(source, at, len) {
            Ok(data) => Ok(data),
            Err(_) => Err(Error::IoError),
        }
    }
}

impl TiffCloner {
    /// Clones the entries of a directory of the source.
    ///
    /// Where several entries cannot be cloned, the error is that of one of them.
    fn clone_ifd_entries(&self, entries: &HashMap<u16, IfdEntry>, source: &[u8]) -> (r: Result<
        BTreeMap<u16, IfdClonedEntry>,
        Error,
    >)
        ensures
            match r {
                Ok(m) => {
                    &&& entries_clone(source@, entries@, self@.endianness, self@.big_tiff)
                    &&& models(m@) == cloned_entries(
                        source@,
                        entries@,
                        self@.endianness,
                        self@.big_tiff,
                    )
                },
                Err(err) => {
                    &&& !entries_clone(source@, entries@, self@.endianness, self@.big_tiff)
                    &&& entries_error(source@, entries@, self@.endianness, self@.big_tiff, err)
                },
            },
    {
        let ghost e = self.endianness;
        let ghost big = self.big_tiff;
        let mut target_ifd: BTreeMap<u16, IfdClonedEntry> = BTreeMap::new();
        let items = entries.iter();
        let ghost all = items.remaining();
        for kv in it: items
            invariant
                e == self.endianness,
                big == self.big_tiff,
                it.seq() == all,
                forall|i: int|
                    0 <= i < all.len() ==> entries@.contains_key(*(#[trigger] all[i]).0)
                        && entries@[*all[i].0] == *all[i].1,
                forall|t: u16| #[trigger]
                    target_ifd@.contains_key(t) ==> {
                        &&& entries@.contains_key(t)
                        &&& cloned_value(source@, entries@[t], e, big) is Ok
                        &&& target_ifd@[t]@ == cloned_entry(source@, t, entries@[t], e, big)
                    },
                forall|i: int|
                    0 <= i < it.index() ==> target_ifd@.contains_key(*(#[trigger] all[i]).0),
        {
            let (tag, entry) = kv;
            assert(all[it.index()] == kv);
            match clone_value(source, *entry, self.endianness, self.big_tiff) {
                Ok(value_bytes) => {
                    target_ifd.insert(
                        *tag,
                        IfdClonedEntry {
                            entry_tag: *tag,
                            entry_type: entry.entry_type,
                            value_count: entry.value_count,
                            value_bytes,
                        },
                    );
                },
                Err(err) => {
                    proof {
                        assert(cloned_value(source@, entries@[*tag], e, big) is Err);
                    }
                    return Err(err);
                },
            }
        }
        proof {
            assert forall|t: u16| entries@.contains_key(t) implies target_ifd@.contains_key(t) by {
                assert(all.contains((&t, &entries@[t])));
                let i = choose|i: int| 0 <= i < all.len() && all[i] == (&t, &entries@[t]);
                assert(target_ifd@.contains_key(*all[i].0));
            }
            assert(models(target_ifd@) =~= cloned_entries(source@, entries@, e, big));
        }
        Ok(target_ifd)
    }
}

/// Reads the number at index `i` of the numbers of type `ty` in `bytes`.
fn read_number(bytes: &[u8], ty: u16, i: u64, e: Endianness) -> (r: Result<u64, Error>)
    requires
        is_number_type(ty),
    ensures
        match r {
            Ok(v) => numbers_len(ty, i + 1) <= bytes@.len() && v == number_at(
                e,
                bytes@,
                ty,
                i as int,
            ),
            Err(err) => numbers_len(ty, i + 1) > bytes@.len() && err == Error::IoError,
        },
{
    let len: u64 = bytes.len() as u64;
    let width: u64 = if ty == 4 {
        4
    } else if ty == 3 {
        2
    } else {
        8
    };
    if i >= len / width {
        return Err(Error::IoError);
    }
    if ty == 4 {
        Ok(read_u32(bytes, 4 * i, e)? as u64)
    } else if ty == 3 {
        Ok(read_u16(bytes, 2 * i, e)? as u64)
    } else {
        read_u64(bytes, 8 * i, e)
    }
}

fn invalid_chunk_error(tiled: bool) -> (r: Error)
    ensures
        r == invalid_chunk(tiled),
{
    if tiled {
        Error::InvalidAsset("invalid TIFF tile")
    } else {
        Error::InvalidAsset("invalid TIFF strip")
    }
}

/// Reads the byte counts of the chunks of an image.
fn read_chunk_counts(c: &IfdClonedEntry, e: Endianness, tiled: bool) -> (r: Result<
    Vec<u64>,
    Error,
>)
    ensures
        match r {
            Ok(v) => chunk_counts(e, c@, tiled) == Ok::<Seq<int>, Error>(
                v@.map_values(|n: u64| n as int),
            ),
            Err(err) => chunk_counts(e, c@, tiled) == Err::<Seq<int>, Error>(err),
        },
{
    let mut counts: Vec<u64> = Vec::new();
    let mut i: u64 = 0;
    while i < c.value_count
        invariant
            i <= c.value_count,
            i > 0 ==> is_number_type(c.entry_type),
            i > 0 ==> numbers_len(c.entry_type, i as int) <= c.value_bytes@.len(),
            counts@.len() == i,
            forall|k: int|
                0 <= k < i ==> #[trigger] counts@[k] == number_at(
                    e,
                    c.value_bytes@,
                    c.entry_type,
                    k,
                ),
        decreases c.value_count - i,
    {
        if c.entry_type != 4 && c.entry_type != 3 && c.entry_type != 16 {
            return Err(invalid_chunk_error(tiled));
        }
        let v: u64 = match read_number(c.value_bytes.as_slice(), c.entry_type, i, e) {
            Ok(v) => v,
            Err(err) => return Err(err),
        };
        counts.push(v);
        i = i + 1;
    }
    proof {
        if c.value_count > 0 {
            assert(counts@.map_values(|n: u64| n as int) =~= Seq::new(
                c.value_count as nat,
                |i: int| number_at(e, c.value_bytes@, c.entry_type, i),
            ));
        } else {
            assert(counts@.map_values(|n: u64| n as int) =~= Seq::<int>::empty());
        }
    }
    Ok(counts)
}

/// Where the first `k` chunks can be copied, each is put at a place, and its offset was read.
pub proof fn lemma_copied_chunks(
    w: Seq<u8>,
    s: Seq<u8>,
    counts: Seq<int>,
    o: ClonedModel,
    e: Endianness,
    tiled: bool,
    k: int,
)
    requires
        k >= 0,
    ensures
        copied_chunks(w, s, counts, o, e, tiled, k) matches Ok((w1, at)) ==> {
            &&& at.len() == k
            &&& k > 0 ==> is_offset_type(o.entry_type, tiled)
            &&& k > 0 ==> numbers_len(o.entry_type, k) <= o.value_bytes.len()
            &&& w.len() <= w1.len()
            &&& w1.subrange(0, w.len() as int) == w
        },
    decreases k,
{
    if k > 0 {
        lemma_copied_chunks(w, s, counts, o, e, tiled, k - 1);
        if let Ok((w1, at)) = copied_chunks(w, s, counts, o, e, tiled, k) {
            let (w0, _) = copied_chunks(w, s, counts, o, e, tiled, k - 1)->Ok_0;
            assert(w1.subrange(0, w.len() as int) =~= w0.subrange(0, w.len() as int));
        }
    } else {
        assert(w.subrange(0, w.len() as int) =~= w);
    }
}

/// A chunk that cannot be copied decides the outcome for all the later ones too.
pub proof fn lemma_copied_chunks_error(
    w: Seq<u8>,
    s: Seq<u8>,
    counts: Seq<int>,
    o: ClonedModel,
    e: Endianness,
    tiled: bool,
    k: int,
    n: int,
)
    requires
        0 <= k <= n,
        copied_chunks(w, s, counts, o, e, tiled, k) is Err,
    ensures
        copied_chunks(w, s, counts, o, e, tiled, n) == copied_chunks(
            w,
            s,
            counts,
            o,
            e,
            tiled,
            k,
        ),
    decreases n,
{
    if k < n {
        lemma_copied_chunks_error(w, s, counts, o, e, tiled, k, n - 1);
    }
}

/// Where the chunk at index `k` is the first that cannot be copied, those before it are.
proof fn lemma_copied_until(
    w: Seq<u8>,
    s: Seq<u8>,
    counts: Seq<int>,
    o: ClonedModel,
    e: Endianness,
    tiled: bool,
    k: int,
    n: int,
)
    requires
        0 <= k < n,
        copied_chunks(w, s, counts, o, e, tiled, k) is Ok,
        copied_chunks(w, s, counts, o, e, tiled, k + 1) is Err,
    ensures
        copied_until(w, s, counts, o, e, tiled, n) == copied_chunks(
            w,
            s,
            counts,
            o,
            e,
            tiled,
            k,
        )->Ok_0,
    decreases n,
{
    lemma_copied_chunks_error(w, s, counts, o, e, tiled, k + 1, n);
    if k + 1 < n {
        lemma_copied_until(w, s, counts, o, e, tiled, k, n - 1);
    } else {
        reveal_with_fuel(copied_until, 2);
    }
}

/// The length of the bytes of numbers.
pub proof fn lemma_numbers_bytes_len(e: Endianness, ty: u16, vs: Seq<int>)
    ensures
        numbers_bytes(e, ty, vs).len() == numbers_len(ty, vs.len() as int),
    decreases vs.len(),
{
    if vs.len() > 0 {
        lemma_numbers_bytes_len(e, ty, vs.drop_last());
    }
}

/// Where a number is too large and those before it are not, these are the ones that fit.
proof fn lemma_fitting(vs: Seq<int>, ty: u16, k: int)
    requires
        0 <= k <= vs.len(),
        forall|i: int| 0 <= i < k ==> #[trigger] vs[i] <= number_max(ty),
        k < vs.len() ==> vs[k] > number_max(ty),
    ensures
        fitting(vs, ty) == k,
    decreases vs.len(),
{
    if vs.len() > 0 {
        let less = vs.drop_last();
        if k < vs.len() {
            lemma_fitting(less, ty, k);
        } else {
            lemma_fitting(less, ty, k - 1);
            assert(vs[k - 1] <= number_max(ty));
        }
    }
}

/// Replaces the numbers that the value of the entry `o` starts with by `at`, as far as they fit.
fn patch_offsets(o: &mut IfdClonedEntry, at: &Vec<u64>, e: Endianness) -> (r: Result<(), Error>)
    requires
        at@.len() > 0 ==> is_number_type(old(o).entry_type),
        at@.len() > 0 ==> numbers_len(old(o).entry_type, at@.len() as int)
            <= old(o).value_bytes@.len(),
    ensures
        ({
            let vs = at@.map_values(|n: u64| n as int);
            let n = fitting(vs, old(o).entry_type);
            &&& 0 <= n <= vs.len()
            &&& final(o)@ == with_offsets(e, old(o)@, vs.take(n))
            &&& match r {
                Ok(()) => n == vs.len() && forall|i: int|
                    0 <= i < at@.len() ==> #[trigger] at@[i] <= number_max(old(o).entry_type),
                Err(err) => {
                    &&& err == out_of_range()
                    &&& exists|i: int|
                        0 <= i < at@.len() && #[trigger] at@[i] > number_max(old(o).entry_type)
                },
            }
        }),
{
    let ghost vs = at@.map_values(|n: u64| n as int);
    let ghost ty = o.entry_type;
    let mut b: Vec<u8> = Vec::new();
    let mut i: usize = 0;
    let mut fits: bool = true;
    while i < at.len() && fits
        invariant
            i <= at@.len(),
            *o == *old(o),
            ty == o.entry_type,
            at@.len() > 0 ==> is_number_type(o.entry_type),
            vs == at@.map_values(|n: u64| n as int),
            b@ == numbers_bytes(e, o.entry_type, vs.take(i as int)),
            forall|k: int| 0 <= k < i ==> #[trigger] at@[k] <= number_max(o.entry_type),
            !fits ==> i < at@.len() && at@[i as int] > number_max(o.entry_type),
        decreases at@.len() - i, fits as int,
    {
        let v: u64 = at[i];
        if o.entry_type == 4 && v > u32::MAX as u64 || o.entry_type == 3 && v > u16::MAX as u64 {
            fits = false;
        } else {
            if o.entry_type == 4 {
                put_u32(&mut b, v as u32, e);
            } else if o.entry_type == 3 {
                put_u16(&mut b, v as u16, e);
            } else {
                put_u64(&mut b, v, e);
            }
            proof {
                assert(vs.take(i + 1).drop_last() =~= vs.take(i as int));
                assert(vs.take(i + 1).last() == v as int);
            }
            i = i + 1;
        }
    }
    proof {
        lemma_numbers_bytes_len(e, ty, vs.take(i as int));
        lemma_fitting(vs, ty, i as int);
    }
    let done: usize = b.len();
    put_bytes(&mut b, slice_subrange(o.value_bytes.as_slice(), done, o.value_bytes.len()));
    o.value_bytes = b;
    proof {
        assert(o@ =~= with_offsets(e, old(o)@, vs.take(i as int)));
    }
    if fits {
        Ok(())
    } else {
        Err(Error::InvalidAsset("value out of range"))
    }
}

impl TiffCloner {
    /// Appends the chunks of the source; returns where each was put.
    fn copy_chunks(
        &mut self,
        counts: &Vec<u64>,
        o: &IfdClonedEntry,
        source: &[u8],
        tiled: bool,
    ) -> (r: Result<Vec<u64>, Error>)
        requires
            old(self).wf(),
        ensures
            final(self).wf(),
            final(self)@ == (ClonerModel { written: final(self)@.written, ..old(self)@ }),
            ({
                let ns = counts@.map_values(|n: u64| n as int);
                let all = copied_chunks(
                    old(self)@.written,
                    source@,
                    ns,
                    o@,
                    old(self)@.endianness,
                    tiled,
                    ns.len() as int,
                );
                &&& match r {
                    Ok(at) => all == Ok::<(Seq<u8>, Seq<int>), Error>(
                        (final(self)@.written, at@.map_values(|n: u64| n as int)),
                    ),
                    Err(err) => all == Err::<(Seq<u8>, Seq<int>), Error>(err),
                }
                &&& final(self)@.written == copied_until(
                    old(self)@.written,
                    source@,
                    ns,
                    o@,
                    old(self)@.endianness,
                    tiled,
                    ns.len() as int,
                ).0
            }),
    {
        let ghost ns = counts@.map_values(|n: u64| n as int);
        let ghost w = self.writer@;
        let ghost e = self.endianness;
        let mut at: Vec<u64> = Vec::new();
        let mut i: usize = 0;
        proof {
            assert(at@.map_values(|n: u64| n as int) =~= Seq::<int>::empty());
        }
        while i < counts.len()
            invariant
                i <= counts@.len(),
                ns == counts@.map_values(|n: u64| n as int),
                w == old(self).writer@,
                e == old(self).endianness,
                e == self.endianness,
                self.wf(),
                self.big_tiff == old(self).big_tiff,
                self.additional_ifds == old(self).additional_ifds,
                copied_chunks(w, source@, ns, o@, e, tiled, i as int) == Ok::<
                    (Seq<u8>, Seq<int>),
                    Error,
                >((self.writer@, at@.map_values(|n: u64| n as int))),
            decreases counts@.len() - i,
        {
            let ghost next = copied_chunks(w, source@, ns, o@, e, tiled, i + 1);
            proof {
                assert(ns[i as int] == counts@[i as int] as int);
                if next is Err {
                    lemma_copied_chunks_error(
                        w,
                        source@,
                        ns,
                        o@,
                        e,
                        tiled,
                        i + 1,
                        ns.len() as int,
                    );
                    lemma_copied_until(w, source@, ns, o@, e, tiled, i as int, ns.len() as int);
                }
            }
            let n: u64 = counts[i];
            if n > usize::MAX as u64 {
                return Err(Error::InvalidAsset("value out of range"));
            }
            if o.entry_type != 4 && !(o.entry_type == 3 && !tiled) && o.entry_type != 16 {
                return Err(invalid_chunk_error(tiled));
            }
            let p: u64 = match read_number(
                o.value_bytes.as_slice(),
                o.entry_type,
                i as u64,
                self.endianness,
            ) {
                Ok(p) => p,
                Err(err) => return Err(err),
            };
            let place: u64 = self.offset();
            let data: Vec<u8> = match read_to_vec(source, p, n) {
                Ok(data) => data,
                Err(err) => return Err(err),
            };
            let ghost before = at@.map_values(|n: u64| n as int);
            at.push(place);
            put_bytes(&mut self.writer, data.as_slice());
            proof {
                assert(at@.map_values(|n: u64| n as int) =~= before.push(place as int));
            }
            i = i + 1;
        }
        Ok(at)
    }

    /// Appends the chunks of one kind and gives the directory their new offsets.
    fn clone_chunks(
        &mut self,
        target_ifd: &mut BTreeMap<u16, IfdClonedEntry>,
        source: &[u8],
        tiled: bool,
    ) -> (r: Result<(), Error>)
        requires
            old(self).wf(),
            old(target_ifd)@.contains_key(counts_tag(tiled)),
            old(target_ifd)@.contains_key(offsets_tag(tiled)),
        ensures
            final(self).wf(),
            final(self)@ == (ClonerModel { written: final(self)@.written, ..old(self)@ }),
            ({
                let all = cloned_chunks(
                    old(self)@.written,
                    source@,
                    models(old(target_ifd)@),
                    old(self)@.endianness,
                    tiled,
                );
                match r {
                    Ok(()) => all == Ok::<(Seq<u8>, Map<u16, ClonedModel>), Error>(
                        (final(self)@.written, models(final(target_ifd)@)),
                    ),
                    Err(err) => all == Err::<(Seq<u8>, Map<u16, ClonedModel>), Error>(err),
                }
            }),
            (final(self)@.written, models(final(target_ifd)@)) == chunks_left(
                old(self)@.written,
                source@,
                models(old(target_ifd)@),
                old(self)@.endianness,
                tiled,
            ),
    {
        let (counts_key, offsets_key): (u16, u16) = if tiled {
            (TILEBYTECOUNTS, TILEOFFSETS)
        } else {
            (STRIPBYTECOUNTS, STRIPOFFSETS)
        };
        let ghost m = models(target_ifd@);
        let c: &IfdClonedEntry = match target_ifd.get(&counts_key) {
            Some(c) => c,
            None => return Err(Error::NotFound),
        };
        let o: &IfdClonedEntry = match target_ifd.get(&offsets_key) {
            Some(o) => o,
            None => return Err(Error::NotFound),
        };
        if o.value_count != c.value_count {
            if tiled {
                return Err(Error::InvalidAsset("TIFF tile count does not match tile offset count"));
            } else {
                return Err(
                    Error::InvalidAsset("TIFF strip count does not match strip offset count"),
                );
            }
        }
        let counts: Vec<u64> = match read_chunk_counts(c, self.endianness, tiled) {
            Ok(counts) => counts,
            Err(err) => return Err(err),
        };
        let ghost ns = counts@.map_values(|n: u64| n as int);
        proof {
            lemma_copied_chunks(
                self.writer@,
                source@,
                ns,
                o@,
                self.endianness,
                tiled,
                ns.len() as int,
            );
        }
        let at: Vec<u64> = match self.copy_chunks(&counts, o, source, tiled) {
            Ok(at) => at,
            Err(err) => return Err(err),
        };
        let ghost places = at@.map_values(|n: u64| n as int);
        let mut o: IfdClonedEntry = match target_ifd.remove(&offsets_key) {
            Some(o) => o,
            None => return Err(Error::NotFound),
        };
        let ghost was = o@;
        let patch: Result<(), Error> = patch_offsets(&mut o, &at, self.endianness);
        target_ifd.insert(offsets_key, o);
        proof {
            let fit = places.take(fitting(places, was.entry_type));
            assert(models(target_ifd@) =~= m.insert(
                offsets_tag(tiled),
                with_offsets(self.endianness, was, fit),
            ));
            if patch is Ok {
                assert(fit =~= places);
                assert forall|i: int| 0 <= i < places.len() implies #[trigger] places[i]
                    <= number_max(was.entry_type) by {
                    assert(at@[i] <= number_max(was.entry_type));
                }
            } else {
                let i = choose|i: int|
                    0 <= i < at@.len() && #[trigger] at@[i] > number_max(was.entry_type);
                assert(places[i] > number_max(was.entry_type));
            }
        }
        patch
    }

    /// Appends the image data that a directory describes and gives it the new offsets.
    ///
    /// Where the numbers of counts and of offsets differ, nothing is appended and the directory
    /// stays as it is.
    fn clone_image_data(
        &mut self,
        target_ifd: &mut BTreeMap<u16, IfdClonedEntry>,
        source: &[u8],
    ) -> (r: Result<(), Error>)
        requires
            old(self).wf(),
        ensures
            final(self).wf(),
            final(self)@ == (ClonerModel { written: final(self)@.written, ..old(self)@ }),
            ({
                let all = cloned_image(
                    old(self)@.written,
                    source@,
                    models(old(target_ifd)@),
                    old(self)@.endianness,
                );
                match r {
                    Ok(()) => all == Ok::<(Seq<u8>, Map<u16, ClonedModel>), Error>(
                        (final(self)@.written, models(final(target_ifd)@)),
                    ),
                    Err(err) => all == Err::<(Seq<u8>, Map<u16, ClonedModel>), Error>(err),
                }
            }),
            (final(self)@.written, models(final(target_ifd)@)) == image_left(
                old(self)@.written,
                source@,
                models(old(target_ifd)@),
                old(self)@.endianness,
            ),
            forall|tiled: bool|
                #![trigger counts_tag(tiled)]
                {
                    let m = models(old(target_ifd)@);
                    has_chunks(m, tiled) && m[counts_tag(tiled)].value_count != m[offsets_tag(
                        tiled,
                    )].value_count ==> {
                        &&& r == Err::<(), Error>(count_mismatch(tiled))
                        &&& final(self)@ == old(self)@
                        &&& models(final(target_ifd)@) == m
                    }
                },
    {
        match (
            target_ifd.contains_key(&STRIPBYTECOUNTS),
            target_ifd.contains_key(&STRIPOFFSETS),
            target_ifd.contains_key(&TILEBYTECOUNTS),
            target_ifd.contains_key(&TILEOFFSETS),
        ) {
            (true, true, false, false) => self.clone_chunks(target_ifd, source, false),
            (false, false, true, true) => self.clone_chunks(target_ifd, source, true),
            (_, _, _, _) => Ok(()),
        }
    }
}

/// A value that cannot be placed decides the outcome for all the later ones too.
pub proof fn lemma_placed_values_none(
    w: Seq<u8>,
    m: Map<u16, ClonedModel>,
    ks: Seq<u16>,
    e: Endianness,
    big: bool,
    k: int,
)
    requires
        0 <= k <= ks.len(),
        placed_values(w, m, ks.take(k), e, big) is None,
    ensures
        placed_values(w, m, ks, e, big) is None,
    decreases ks.len(),
{
    if k < ks.len() {
        assert(ks.drop_last().take(k) =~= ks.take(k));
        lemma_placed_values_none(w, m, ks.drop_last(), e, big, k);
    } else {
        assert(ks.take(k) =~= ks);
    }
}

/// The value field that holds the value `v`.
fn inline_field_vec(v: &Vec<u8>, big: bool) -> (r: Vec<u8>)
    requires
        v@.len() <= offset_width(big),
    ensures
        r@ == inline_field(v@, big),
{
    let width: usize = if big {
        8
    } else {
        4
    };
    let mut field: Vec<u8> = Vec::new();
    put_bytes(&mut field, v.as_slice());
    while field.len() < width
        invariant
            width == offset_width(big),
            v@.len() <= field@.len() <= width,
            field@ == v@ + zeros(field@.len() - v@.len()),
        decreases width - field@.len(),
    {
        field.push(0);
        assert(field@ =~= v@ + zeros(field@.len() - v@.len()));
    }
    field
}

impl TiffCloner {
    /// Appends the values of a directory that do not fit their entries; puts the value fields in
    /// place of the values.
    fn write_values(
        &mut self,
        target_ifd: &mut BTreeMap<u16, IfdClonedEntry>,
        keys: &Vec<u16>,
    ) -> (r: Result<(), Error>)
        requires
            old(self).wf(),
            increasing(keys@),
            forall|i: int|
                0 <= i < keys@.len() ==> old(target_ifd)@.contains_key(#[trigger] keys@[i]),
        ensures
            final(self).wf(),
            final(self)@ == (ClonerModel { written: final(self)@.written, ..old(self)@ }),
            ({
                let m = models(old(target_ifd)@);
                let e = old(self)@.endianness;
                let big = old(self)@.big_tiff;
                let all = placed_values(old(self)@.written, m, keys@, e, big);
                let (w1, fields) = placed_until(old(self)@.written, m, keys@, e, big);
                &&& fields.len() <= keys@.len()
                &&& models(final(target_ifd)@) == with_fields(
                    m,
                    keys@.take(fields.len() as int),
                    fields,
                )
                &&& match r {
                    Ok(()) => all == Some((final(self)@.written, fields)),
                    Err(err) => {
                        &&& all is None
                        &&& err == out_of_range()
                        &&& fields.len() < keys@.len()
                        &&& final(self)@.written == w1 + m[keys@[fields.len() as int]].value_bytes
                    },
                }
            }),
    {
        let ghost w = self.writer@;
        let ghost e = self.endianness;
        let ghost big = self.big_tiff;
        let ghost m = models(target_ifd@);
        let ghost mut fields: Seq<Seq<u8>> = Seq::empty();
        let width: usize = if self.big_tiff {
            8
        } else {
            4
        };
        let mut i: usize = 0;
        proof {
            assert(keys@.take(0) =~= Seq::<u16>::empty());
        }
        while i < keys.len()
            invariant
                i <= keys@.len(),
                self.wf(),
                w == old(self).writer@,
                e == old(self).endianness,
                big == old(self).big_tiff,
                e == self.endianness,
                big == self.big_tiff,
                self.additional_ifds == old(self).additional_ifds,
                width == offset_width(big),
                m == models(old(target_ifd)@),
                increasing(keys@),
                forall|i: int| 0 <= i < keys@.len() ==> m.contains_key(#[trigger] keys@[i]),
                fields.len() == i,
                placed_values(w, m, keys@.take(i as int), e, big) == Some((self.writer@, fields)),
                models(target_ifd@) == with_fields(m, keys@.take(i as int), fields),
            decreases keys@.len() - i,
        {
            let key: u16 = keys[i];
            let ghost next = keys@.take(i + 1);
            let ghost before = models(target_ifd@);
            proof {
                assert(next.drop_last() =~= keys@.take(i as int));
                assert(next.last() == key);
                lemma_with_fields(m, keys@.take(i as int), fields);
                assert(!keys@.take(i as int).contains(key));
                assert(before[key] == m[key]);
                assert(before.dom().contains(key));
                assert(before[key] == target_ifd@[key]@);
            }
            if let Some(mut entry) = target_ifd.remove(&key) {
                if entry.value_bytes.len() > width {
                    let offset: u64 = self.offset();
                    put_bytes(&mut self.writer, entry.value_bytes.as_slice());
                    match word_vec(offset, self.endianness, self.big_tiff) {
                        Ok(place) => entry.value_bytes = place,
                        Err(err) => {
                            target_ifd.insert(key, entry);
                            proof {
                                assert(models(target_ifd@) =~= before);
                                lemma_placed_until(w, m, keys@, e, big, i as int);
                            }
                            return Err(err);
                        },
                    }
                } else {
                    entry.value_bytes = inline_field_vec(&entry.value_bytes, self.big_tiff);
                }
                target_ifd.insert(key, entry);
                proof {
                    let more = fields.push(entry.value_bytes@);
                    assert(more.drop_last() =~= fields);
                    assert(entry@ =~= with_field(m[key], entry.value_bytes@));
                    assert(models(target_ifd@) =~= before.insert(key, entry@));
                    fields = more;
                }
            }
            i = i + 1;
        }
        proof {
            assert(keys@.take(i as int) =~= keys@);
        }
        Ok(())
    }

    /// Appends the entries of a directory, which have their value fields in place of their values.
    fn write_entries(&mut self, target_ifd: &BTreeMap<u16, IfdClonedEntry>, keys: &Vec<u16>) -> (r:
        Result<(), Error>)
        requires
            old(self).wf(),
            forall|i: int| 0 <= i < keys@.len() ==> target_ifd@.contains_key(#[trigger] keys@[i]),
        ensures
            final(self).wf(),
            final(self)@ == (ClonerModel { written: final(self)@.written, ..old(self)@ }),
            ({
                let m = models(target_ifd@);
                let fit = old(self)@.big_tiff || forall|i: int|
                    0 <= i < keys@.len() ==> (#[trigger] m[keys@[i]]).value_count <= u32::MAX;
                match r {
                    Ok(()) => fit && final(self)@.written == old(self)@.written + entries_bytes(
                        m,
                        keys@,
                        Seq::new(keys@.len(), |i: int| m[keys@[i]].value_bytes),
                        old(self)@.endianness,
                        old(self)@.big_tiff,
                    ),
                    Err(err) => !fit && err == out_of_range(),
                }
            }),
            final(self)@.written == old(self)@.written + entries_left(
                models(target_ifd@),
                keys@,
                Seq::new(keys@.len(), |i: int| models(target_ifd@)[keys@[i]].value_bytes),
                old(self)@.endianness,
                old(self)@.big_tiff,
            ),
    {
        let ghost w = self.writer@;
        let ghost e = self.endianness;
        let ghost big = self.big_tiff;
        let ghost m = models(target_ifd@);
        let ghost fs = Seq::new(keys@.len(), |i: int| m[keys@[i]].value_bytes);
        let mut i: usize = 0;
        proof {
            assert(self.writer@ =~= w + entries_bytes(m, keys@.take(0), fs.take(0), e, big));
        }
        while i < keys.len()
            invariant
                i <= keys@.len(),
                self.wf(),
                w == old(self).writer@,
                e == old(self).endianness,
                big == old(self).big_tiff,
                e == self.endianness,
                big == self.big_tiff,
                self@.added == old(self)@.added,
                m == models(target_ifd@),
                fs == Seq::new(keys@.len(), |i: int| m[keys@[i]].value_bytes),
                forall|i: int|
                    0 <= i < keys@.len() ==> target_ifd@.contains_key(#[trigger] keys@[i]),
                big || forall|k: int|
                    0 <= k < i ==> (#[trigger] m[keys@[k]]).value_count <= u32::MAX,
                self.writer@ == w + entries_bytes(
                    m,
                    keys@.take(i as int),
                    fs.take(i as int),
                    e,
                    big,
                ),
            decreases keys@.len() - i,
        {
            proof {
                assert(keys@.take(i + 1).drop_last() =~= keys@.take(i as int));
                assert(fs.take(i + 1).drop_last() =~= fs.take(i as int));
                assert(fs.take(i + 1).last() == fs[i as int]);
            }
            if let Some(entry) = target_ifd.get(&keys[i]) {
                proof {
                    assert(m[keys@[i as int]] == entry@);
                }
                let ghost start = self.writer@;
                put_u16(&mut self.writer, keys[i], self.endianness);
                put_u16(&mut self.writer, entry.entry_type, self.endianness);
                match self.write_word(entry.value_count) {
                    Ok(()) => (),
                    Err(err) => {
                        proof {
                            lemma_counts_fitting(m, keys@, big, i as int);
                            assert(self.writer@ =~= w + entries_left(m, keys@, fs, e, big));
                        }
                        return Err(err);
                    },
                }
                put_bytes(&mut self.writer, entry.value_bytes.as_slice());
                proof {
                    assert(self.writer@ =~= start + entry_bytes(
                        keys@[i as int],
                        entry@,
                        fs[i as int],
                        e,
                        big,
                    ));
                    assert(self.writer@ =~= w + entries_bytes(
                        m,
                        keys@.take(i + 1),
                        fs.take(i + 1),
                        e,
                        big,
                    ));
                }
            }
            i = i + 1;
        }
        proof {
            assert(keys@.take(i as int) =~= keys@);
            assert(fs.take(i as int) =~= fs);
            lemma_counts_fitting(m, keys@, big, i as int);
        }
        Ok(())
    }

    /// Appends a directory but for the offset of the next; returns where it starts. Each entry gets
    /// its value field in place of its value.
    fn write_ifd(&mut self, target_ifd: &mut BTreeMap<u16, IfdClonedEntry>) -> (r: Result<
        u64,
        Error,
    >)
        requires
            old(self).wf(),
        ensures
            final(self).wf(),
            final(self)@ == (ClonerModel { written: final(self)@.written, ..old(self)@ }),
            ({
                let all = written_ifd(
                    old(self)@.written,
                    models(old(target_ifd)@),
                    old(self)@.endianness,
                    old(self)@.big_tiff,
                );
                match r {
                    Ok(at) => all == Some((final(self)@.written, at as int)),
                    Err(err) => all is None && err == out_of_range(),
                }
            }),
            models(final(target_ifd)@) == ifd_left(
                old(self)@.written,
                models(old(target_ifd)@),
                old(self)@.endianness,
                old(self)@.big_tiff,
            ),
            final(self)@.written == ifd_written(
                old(self)@.written,
                models(old(target_ifd)@),
                old(self)@.endianness,
                old(self)@.big_tiff,
            ),
            r matches Ok(at) ==> {
                let m = models(old(target_ifd)@);
                let left = models(final(target_ifd)@);
                let before = old(self)@.written.len() as int;
                &&& at % 4 == 0
                &&& before <= at <= final(self)@.written.len()
                &&& final(self)@.written.subrange(0, before) == old(self)@.written
                &&& left.dom() == m.dom()
                &&& forall|t: u16| #[trigger]
                    m.contains_key(t) ==> {
                        &&& left[t] == with_field(m[t], left[t].value_bytes)
                        &&& holds_value(
                            final(self)@.written,
                            before,
                            at as int,
                            m[t],
                            left[t].value_bytes,
                            old(self)@.endianness,
                            old(self)@.big_tiff,
                        )
                    }
            },
    {
        let keys: Vec<u16> = sorted_keys(target_ifd);
        let ghost m = models(target_ifd@);
        let ghost w = self.writer@;
        proof {
            lemma_sorted_tags(target_ifd@.dom());
            assert(m.dom() =~= target_ifd@.dom());
            assert forall|i: int| 0 <= i < keys@.len() implies target_ifd@.contains_key(
                #[trigger] keys@[i],
            ) by {
                assert(keys@.contains(keys@[i]));
            }
            lemma_placed_values_len(w, m, keys@, self.endianness, self.big_tiff);
        }
        match self.write_values(target_ifd, &keys) {
            Ok(()) => (),
            Err(err) => return Err(err),
        }
        let ghost fields = placed_until(w, m, keys@, self.endianness, self.big_tiff).1;
        proof {
            assert(keys@.take(keys@.len() as int) =~= keys@);
            lemma_with_fields(m, keys@, fields);
            let left = models(target_ifd@);
            assert(left.dom() =~= target_ifd@.dom());
            assert(Seq::new(keys@.len(), |i: int| left[keys@[i]].value_bytes) =~= fields);
            assert forall|i: int| 0 <= i < keys@.len() implies (
            #[trigger] left[keys@[i]]).entry_type == m[keys@[i]].entry_type
                && left[keys@[i]].value_count == m[keys@[i]].value_count by {
                assert(left[keys@[i]] == with_field(m[keys@[i]], fields[i]));
            }
            lemma_same_entries(m, left, keys@, fields, self.endianness, self.big_tiff);
            lemma_same_left(m, left, keys@, fields, self.endianness, self.big_tiff);
        }
        self.pad_word_boundary();
        let ifd_offset: u64 = self.offset();
        match self.write_entry_count(keys.len()) {
            Ok(()) => (),
            Err(err) => return Err(err),
        }
        match self.write_entries(target_ifd, &keys) {
            Ok(()) => (),
            Err(err) => {
                proof {
                    let left = models(target_ifd@);
                    let i = choose|i: int|
                        0 <= i < keys@.len() && (#[trigger] left[keys@[i]]).value_count > u32::MAX;
                    assert(m[keys@[i]].value_count > u32::MAX);
                }
                return Err(err);
            },
        }
        proof {
            assert forall|i: int| 0 <= i < keys@.len() implies self.big_tiff || (
            #[trigger] m[keys@[i]]).value_count <= u32::MAX by {
                assert(models(target_ifd@)[keys@[i]].value_count == m[keys@[i]].value_count);
            }
            lemma_ifd_left(w, m, self.endianness, self.big_tiff);
        }
        Ok(ifd_offset)
    }
}

/// Entries take their places by their types and counts, and by their value fields.
proof fn lemma_same_entries(
    a: Map<u16, ClonedModel>,
    b: Map<u16, ClonedModel>,
    ks: Seq<u16>,
    fields: Seq<Seq<u8>>,
    e: Endianness,
    big: bool,
)
    requires
        forall|i: int|
            0 <= i < ks.len() ==> (#[trigger] b[ks[i]]).entry_type == a[ks[i]].entry_type
                && b[ks[i]].value_count == a[ks[i]].value_count,
    ensures
        entries_bytes(a, ks, fields, e, big) == entries_bytes(b, ks, fields, e, big),
    decreases ks.len(),
{
    if ks.len() > 0 {
        let less = ks.drop_last();
        assert forall|i: int| 0 <= i < less.len() implies (#[trigger] b[less[i]]).entry_type
            == a[less[i]].entry_type && b[less[i]].value_count == a[less[i]].value_count by {
            assert(b[ks[i]].entry_type == a[ks[i]].entry_type);
        }
        lemma_same_entries(a, b, less, fields.drop_last(), e, big);
        assert(b[ks[ks.len() - 1]].entry_type == a[ks[ks.len() - 1]].entry_type);
    }
}

/// Where a count does not fit and those before it do, these are the ones that fit.
proof fn lemma_counts_fitting(m: Map<u16, ClonedModel>, ks: Seq<u16>, big: bool, k: int)
    requires
        0 <= k <= ks.len(),
        big || forall|i: int| 0 <= i < k ==> (#[trigger] m[ks[i]]).value_count <= u32::MAX,
        k < ks.len() ==> m[ks[k]].value_count > word_max(big),
    ensures
        counts_fitting(m, ks, big) == k,
    decreases ks.len(),
{
    if ks.len() > 0 {
        let less = ks.drop_last();
        assert forall|i: int| 0 <= i < less.len() implies #[trigger] m[less[i]] == m[ks[i]] by {}
        if k < ks.len() {
            lemma_counts_fitting(m, less, big, k);
        } else {
            lemma_counts_fitting(m, less, big, k - 1);
            assert(m[ks[k - 1]].value_count <= word_max(big));
        }
    }
}

/// As far as counts fit, entries take their places by their types and counts, and by their value
/// fields.
proof fn lemma_same_left(
    a: Map<u16, ClonedModel>,
    b: Map<u16, ClonedModel>,
    ks: Seq<u16>,
    fields: Seq<Seq<u8>>,
    e: Endianness,
    big: bool,
)
    requires
        forall|i: int|
            0 <= i < ks.len() ==> (#[trigger] b[ks[i]]).entry_type == a[ks[i]].entry_type
                && b[ks[i]].value_count == a[ks[i]].value_count,
    ensures
        entries_left(a, ks, fields, e, big) == entries_left(b, ks, fields, e, big),
{
    lemma_same_fitting(a, b, ks, big);
    let n = counts_fitting(a, ks, big);
    let done = ks.take(n);
    assert forall|i: int| 0 <= i < done.len() implies (#[trigger] b[done[i]]).entry_type
        == a[done[i]].entry_type && b[done[i]].value_count == a[done[i]].value_count by {
        assert(b[ks[i]].entry_type == a[ks[i]].entry_type);
    }
    lemma_same_entries(a, b, done, fields.take(n), e, big);
    if n < ks.len() {
        assert(b[ks[n]].entry_type == a[ks[n]].entry_type);
    }
}

proof fn lemma_same_fitting(
    a: Map<u16, ClonedModel>,
    b: Map<u16, ClonedModel>,
    ks: Seq<u16>,
    big: bool,
)
    requires
        forall|i: int|
            0 <= i < ks.len() ==> (#[trigger] b[ks[i]]).entry_type == a[ks[i]].entry_type
                && b[ks[i]].value_count == a[ks[i]].value_count,
    ensures
        counts_fitting(a, ks, big) == counts_fitting(b, ks, big),
        0 <= counts_fitting(a, ks, big) <= ks.len(),
    decreases ks.len(),
{
    if ks.len() > 0 {
        let less = ks.drop_last();
        assert forall|i: int| 0 <= i < less.len() implies (#[trigger] b[less[i]]).entry_type
            == a[less[i]].entry_type && b[less[i]].value_count == a[less[i]].value_count by {
            assert(b[ks[i]].entry_type == a[ks[i]].entry_type);
        }
        lemma_same_fitting(a, b, less, big);
        assert(b[ks[ks.len() - 1]].value_count == a[ks[ks.len() - 1]].value_count);
    }
}

/// The given tags get their value fields, and the others stay.
pub proof fn lemma_with_fields(m: Map<u16, ClonedModel>, ks: Seq<u16>, fields: Seq<Seq<u8>>)
    requires
        increasing(ks),
        fields.len() == ks.len(),
        forall|i: int| 0 <= i < ks.len() ==> m.contains_key(#[trigger] ks[i]),
    ensures
        with_fields(m, ks, fields).dom() == m.dom(),
        forall|i: int|
            0 <= i < ks.len() ==> with_fields(m, ks, fields)[#[trigger] ks[i]] == with_field(
                m[ks[i]],
                fields[i],
            ),
        forall|t: u16|
            !ks.contains(t) ==> #[trigger] with_fields(m, ks, fields)[t] == m[t],
    decreases ks.len(),
{
    let all = with_fields(m, ks, fields);
    if ks.len() > 0 {
        let less = ks.drop_last();
        lemma_with_fields(m, less, fields.drop_last());
        assert(m.contains_key(ks[ks.len() - 1]));
        assert(all.dom() =~= m.dom());
        assert forall|i: int| 0 <= i < ks.len() implies all[#[trigger] ks[i]] == with_field(
            m[ks[i]],
            fields[i],
        ) by {
            if i < less.len() {
                assert(less[i] == ks[i]);
                assert(ks[i] < ks[ks.len() - 1]);
            }
        }
        assert forall|t: u16| !ks.contains(t) implies #[trigger] all[t] == m[t] by {
            assert(ks[ks.len() - 1] != t);
            if less.contains(t) {
                let i = choose|i: int| 0 <= i < less.len() && less[i] == t;
                assert(ks[i] == t);
            }
        }
    }
}

/// Where the value at index `k` is the first whose offset does not fit, those before it are
/// placed.
proof fn lemma_placed_until(
    w: Seq<u8>,
    m: Map<u16, ClonedModel>,
    ks: Seq<u16>,
    e: Endianness,
    big: bool,
    k: int,
)
    requires
        0 <= k < ks.len(),
        placed_values(w, m, ks.take(k), e, big) is Some,
        placed_values(w, m, ks.take(k + 1), e, big) is None,
    ensures
        placed_values(w, m, ks, e, big) is None,
        placed_until(w, m, ks, e, big) == placed_values(w, m, ks.take(k), e, big)->0,
    decreases ks.len(),
{
    let less = ks.drop_last();
    lemma_placed_values_none(w, m, ks, e, big, k + 1);
    if k + 1 < ks.len() {
        assert(less.take(k) =~= ks.take(k));
        assert(less.take(k + 1) =~= ks.take(k + 1));
        lemma_placed_until(w, m, less, e, big, k);
    } else {
        assert(less =~= ks.take(k));
        reveal_with_fuel(placed_until, 2);
    }
}

/// Each tag gets one value field.
pub proof fn lemma_placed_values_len(
    w: Seq<u8>,
    m: Map<u16, ClonedModel>,
    ks: Seq<u16>,
    e: Endianness,
    big: bool,
)
    ensures
        placed_values(w, m, ks, e, big) matches Some((w1, fields)) ==> fields.len() == ks.len(),
    decreases ks.len(),
{
    if ks.len() > 0 {
        lemma_placed_values_len(w, m, ks.drop_last(), e, big);
    }
}

/// A directory that cannot be cloned decides the outcome for all the later ones too.
pub proof fn lemma_cloned_children_none(
    w: Seq<u8>,
    s: Seq<u8>,
    children: Seq<IfdModel>,
    e: Endianness,
    big: bool,
    k: int,
)
    requires
        0 <= k <= children.len(),
        cloned_children(w, s, children.take(k), e, big) is None,
    ensures
        cloned_children(w, s, children, e, big) is None,
    decreases children.len(),
{
    if k < children.len() {
        assert(children.drop_last().take(k) =~= children.take(k));
        lemma_cloned_children_none(w, s, children.drop_last(), e, big, k);
    } else {
        assert(children.take(k) =~= children);
    }
}

/// Where the directory at index `k` is the first that cannot be cloned, all that is written is what
/// comes of it behind those before it.
proof fn lemma_children_written(
    w: Seq<u8>,
    s: Seq<u8>,
    children: Seq<IfdModel>,
    e: Endianness,
    big: bool,
    k: int,
)
    requires
        0 <= k < children.len(),
        cloned_children(w, s, children.take(k), e, big) is Some,
        cloned_children(w, s, children.take(k + 1), e, big) is None,
    ensures
        ({
            let (w1, _) = cloned_children(w, s, children.take(k), e, big)->0;
            children_written(w, s, children, e, big) == child_written(
                w1,
                s,
                children[k].entries,
                e,
                big,
            )
        }),
    decreases children.len(),
{
    let less = children.drop_last();
    if k + 1 < children.len() {
        assert(less.take(k) =~= children.take(k));
        assert(less.take(k + 1) =~= children.take(k + 1));
        lemma_cloned_children_none(w, s, less, e, big, k + 1);
        lemma_children_written(w, s, less, e, big, k);
    } else {
        assert(less =~= children.take(k));
    }
}

/// Where the directories that hang off a page were put.
struct ChildPlaces {
    subfiles: Vec<u64>,
    exif: Vec<u64>,
    gps: Vec<u64>,
}

impl ChildPlaces {
    spec fn are(&self, children: Seq<IfdModel>, at: Seq<int>) -> bool {
        &&& self.subfiles@.map_values(|n: u64| n as int) == places_of(
            children,
            at,
            IfdType::Subfile,
        )
        &&& self.exif@.map_values(|n: u64| n as int) == places_of(children, at, IfdType::Exif)
        &&& self.gps@.map_values(|n: u64| n as int) == places_of(children, at, IfdType::Gps)
    }
}

impl ChildPlaces {
    /// Adds the place of one more directory.
    fn add(&mut self, ty: IfdType, place: u64, Ghost(children): Ghost<Seq<IfdModel>>, Ghost(at):
        Ghost<Seq<int>>)
        requires
            children.len() > 0,
            at.len() == children.len(),
            children.last().ifd_type == ty,
            at.last() == place,
            old(self).are(children.drop_last(), at.drop_last()),
        ensures
            final(self).are(children, at),
    {
        proof {
            lemma_push_mapped(self.subfiles@, place);
            lemma_push_mapped(self.exif@, place);
            lemma_push_mapped(self.gps@, place);
        }
        match ty {
            IfdType::Page => (),
            IfdType::Subfile => self.subfiles.push(place),
            IfdType::Exif => self.exif.push(place),
            IfdType::Gps => self.gps.push(place),
        }
    }
}

proof fn lemma_push_mapped(v: Seq<u64>, n: u64)
    ensures
        v.push(n).map_values(|n: u64| n as int) == v.map_values(|n: u64| n as int).push(n as int),
{
    assert(v.push(n).map_values(|n: u64| n as int) =~= v.map_values(|n: u64| n as int).push(
        n as int,
    ));
}

impl TiffCloner {
    /// Appends a directory of the source and what it describes; returns where it starts.
    fn clone_child(&mut self, entries: &HashMap<u16, IfdEntry>, source: &[u8]) -> (r: Result<
        u64,
        Error,
    >)
        requires
            old(self).wf(),
        ensures
            final(self).wf(),
            final(self)@ == (ClonerModel { written: final(self)@.written, ..old(self)@ }),
            ({
                let all = cloned_child(
                    old(self)@.written,
                    source@,
                    entries@,
                    old(self)@.endianness,
                    old(self)@.big_tiff,
                );
                match r {
                    Ok(at) => all == Some((final(self)@.written, at as int)),
                    Err(err) => all is None && child_error(
                        old(self)@.written,
                        source@,
                        entries@,
                        old(self)@.endianness,
                        old(self)@.big_tiff,
                        err,
                    ),
                }
            }),
            final(self)@.written == child_written(
                old(self)@.written,
                source@,
                entries@,
                old(self)@.endianness,
                old(self)@.big_tiff,
            ),
    {
        proof {
            reveal(cloned_child);
            reveal(child_error);
            reveal(child_written);
        }
        let mut cloned_ifd = match self.clone_ifd_entries(entries, source) {
            Ok(cloned_ifd) => cloned_ifd,
            Err(err) => return Err(err),
        };
        match self.clone_image_data(&mut cloned_ifd, source) {
            Ok(()) => (),
            Err(err) => return Err(err),
        }
        let sub_ifd_offset: u64 = match self.write_ifd(&mut cloned_ifd) {
            Ok(offset) => offset,
            Err(err) => return Err(err),
        };
        // terminate since chained subifds are not supported
        match self.write_word(0) {
            Ok(()) => (),
            Err(err) => return Err(err),
        }
        Ok(sub_ifd_offset)
    }

    /// Appends the directories that hang off a page; returns where each kind was put.
    fn clone_sub_files(
        &mut self,
        tiff_tree: &Arena<ImageFileDirectory>,
        page: Token,
        source: &[u8],
    ) -> (r: Result<ChildPlaces, Error>)
        requires
            old(self).wf(),
            arena_nodes(*tiff_tree).contains_key(page),
        ensures
            final(self).wf(),
            final(self)@ == (ClonerModel { written: final(self)@.written, ..old(self)@ }),
            ({
                let children = tree_children(*tiff_tree, page);
                let all = cloned_children(
                    old(self)@.written,
                    source@,
                    children,
                    old(self)@.endianness,
                    old(self)@.big_tiff,
                );
                match r {
                    Ok(places) => {
                        &&& all matches Some((w1, at))
                        &&& final(self)@.written == w1
                        &&& places.are(children, at)
                    },
                    Err(err) => {
                        &&& all is None
                        &&& children_error(
                            old(self)@.written,
                            source@,
                            children,
                            old(self)@.endianness,
                            old(self)@.big_tiff,
                            err,
                        )
                        &&& final(self)@.written == children_written(
                            old(self)@.written,
                            source@,
                            children,
                            old(self)@.endianness,
                            old(self)@.big_tiff,
                        )
                    },
                }
            }),
    {
        let ghost w = self.writer@;
        let ghost e = self.endianness;
        let ghost big = self.big_tiff;
        let ghost children = tree_children(*tiff_tree, page);
        let nodes: Vec<&ImageFileDirectory> = arena_children_data(tiff_tree, page);
        let mut places = ChildPlaces { subfiles: Vec::new(), exif: Vec::new(), gps: Vec::new() };
        let ghost mut at: Seq<int> = Seq::empty();
        let mut i: usize = 0;
        proof {
            assert(places.subfiles@.map_values(|n: u64| n as int) =~= Seq::<int>::empty());
            assert(children.take(0) =~= Seq::<IfdModel>::empty());
        }
        while i < nodes.len()
            invariant
                i <= nodes@.len(),
                nodes@.len() == children.len(),
                children == tree_children(*tiff_tree, page),
                forall|k: int| 0 <= k < nodes@.len() ==> (#[trigger] nodes@[k])@ == children[k],
                self.wf(),
                w == old(self)@.written,
                e == old(self)@.endianness,
                big == old(self)@.big_tiff,
                self@ == (ClonerModel { written: self@.written, ..old(self)@ }),
                cloned_children(w, source@, children.take(i as int), e, big) == Some(
                    (self@.written, at),
                ),
                at.len() == i,
                places.are(children.take(i as int), at),
            decreases nodes@.len() - i,
        {
            let ifd: &ImageFileDirectory = nodes[i];
            let ghost next = children.take(i + 1);
            proof {
                assert(next.drop_last() =~= children.take(i as int));
                assert(next.last() == ifd@);
                if cloned_children(w, source@, next, e, big) is None {
                    lemma_cloned_children_none(w, source@, children, e, big, i + 1);
                }
            }
            let sub_ifd_offset: u64 = match self.clone_child(&ifd.entries, source) {
                Ok(offset) => offset,
                Err(err) => {
                    proof {
                        assert(cloned_children(w, source@, children.take(i as int), e, big)
                            is Some);
                        assert(children[i as int].entries == ifd.entries@);
                        lemma_children_written(w, source@, children, e, big, i as int);
                    }
                    return Err(err);
                },
            };
            proof {
                let more = at.push(sub_ifd_offset as int);
                assert(more.drop_last() =~= at);
                at = more;
            }
            places.add(ifd.ifd_type, sub_ifd_offset, Ghost(next), Ghost(at));
            i = i + 1;
        }
        proof {
            assert(children.take(i as int) =~= children);
        }
        Ok(places)
    }
}

/// Gives the page's directory the places of the directories that the entry for `tag` lists.
fn set_places(
    target_ifd: &mut BTreeMap<u16, IfdClonedEntry>,
    tag: u16,
    at: &Vec<u64>,
    e: Endianness,
    big: bool,
) -> (r: Result<(), Error>)
    ensures
        ({
            let all = with_places(
                models(old(target_ifd)@),
                tag,
                at@.map_values(|n: u64| n as int),
                e,
                big,
            );
            match r {
                Ok(()) => all == Ok::<Map<u16, ClonedModel>, Error>(models(final(target_ifd)@)),
                Err(err) => {
                    &&& all == Err::<Map<u16, ClonedModel>, Error>(err)
                    &&& final(target_ifd)@ == old(target_ifd)@
                },
            }
        }),
{
    let ghost vs = at@.map_values(|n: u64| n as int);
    let ghost m = models(target_ifd@);
    if at.len() == 0 {
        return Ok(());
    }
    if !target_ifd.contains_key(&tag) {
        return Err(Error::InvalidAsset("TIFF does not have IFD"));
    }
    let mut b: Vec<u8> = Vec::new();
    let mut i: usize = 0;
    while i < at.len()
        invariant
            i <= at@.len(),
            vs == at@.map_values(|n: u64| n as int),
            b@ == words_bytes(e, vs.take(i as int), big),
            forall|k: int| 0 <= k < i ==> #[trigger] vs[k] <= word_max(big),
            m.contains_key(tag),
            m == models(old(target_ifd)@),
            target_ifd@ == old(target_ifd)@,
        decreases at@.len() - i,
    {
        let word: Vec<u8> = match word_vec(at[i], e, big) {
            Ok(word) => word,
            Err(err) => {
                proof {
                    assert(vs[i as int] > word_max(big));
                }
                return Err(err);
            },
        };
        put_bytes(&mut b, word.as_slice());
        proof {
            assert(vs.take(i + 1).drop_last() =~= vs.take(i as int));
            assert(vs.take(i + 1).last() == at@[i as int] as int);
        }
        i = i + 1;
    }
    if let Some(mut entry) = target_ifd.remove(&tag) {
        let ghost was = entry@;
        entry.value_bytes = b;
        target_ifd.insert(tag, entry);
        proof {
            assert(vs.take(i as int) =~= vs);
            assert(entry@ =~= ClonedModel { value_bytes: words_bytes(e, vs, big), ..was });
            assert(models(target_ifd@) =~= m.insert(tag, entry@));
        }
    }
    Ok(())
}

proof fn lemma_to_set_push(s: Seq<u16>, x: u16)
    ensures
        s.push(x).to_set() == s.to_set().insert(x),
{
    let more = s.push(x);
    assert forall|t: u16| #[trigger] more.to_set().contains(t) <==> s.to_set().insert(x).contains(
        t,
    ) by {
        if more.contains(t) {
            let k = choose|k: int| 0 <= k < more.len() && more[k] == t;
            if k < s.len() {
                assert(s[k] == t);
            }
        }
        if s.contains(t) {
            let k = choose|k: int| 0 <= k < s.len() && s[k] == t;
            assert(more[k] == t);
        }
        assert(more[s.len() as int] == x);
    }
    assert(more.to_set() =~= s.to_set().insert(x));
}

impl TiffCloner {
    /// Gives the page's directory the added tags.
    fn add_tags(&self, target_ifd: &mut BTreeMap<u16, IfdClonedEntry>)
        ensures
            models(final(target_ifd)@) == models(old(target_ifd)@).union_prefer_right(self@.added),
    {
        let keys: Vec<u16> = sorted_keys(&self.additional_ifds);
        let ghost m = models(target_ifd@);
        let ghost added = self@.added;
        proof {
            crate::tiff::tags::lemma_sorted_tags(self.additional_ifds@.dom());
            assert(models(target_ifd@) =~= m.union_prefer_right(
                added.restrict(keys@.take(0).to_set()),
            ));
        }
        let mut i: usize = 0;
        while i < keys.len()
            invariant
                i <= keys@.len(),
                added == models(self.additional_ifds@),
                forall|t: u16| #[trigger] keys@.contains(t) <==> added.contains_key(t),
                models(target_ifd@) == m.union_prefer_right(
                    added.restrict(keys@.take(i as int).to_set()),
                ),
            decreases keys@.len() - i,
        {
            let key: u16 = keys[i];
            let ghost before = models(target_ifd@);
            proof {
                assert(keys@.contains(key));
                lemma_to_set_push(keys@.take(i as int), key);
                assert(keys@.take(i + 1) =~= keys@.take(i as int).push(key));
            }
            if let Some(entry) = self.additional_ifds.get(&key) {
                let mut value_bytes: Vec<u8> = Vec::new();
                put_bytes(&mut value_bytes, entry.value_bytes.as_slice());
                let copy = IfdClonedEntry {
                    entry_tag: entry.entry_tag,
                    entry_type: entry.entry_type,
                    value_count: entry.value_count,
                    value_bytes,
                };
                proof {
                    assert(copy@ =~= entry@);
                }
                target_ifd.insert(key, copy);
                proof {
                    assert(models(target_ifd@) =~= before.insert(key, added[key]));
                    assert(models(target_ifd@) =~= m.union_prefer_right(
                        added.restrict(keys@.take(i + 1).to_set()),
                    ));
                }
            }
            i = i + 1;
        }
        proof {
            assert(keys@.take(i as int) =~= keys@);
            assert forall|t: u16| #[trigger] keys@.to_set().contains(t) <==> added.contains_key(
                t,
            ) by {
                assert(keys@.contains(t) <==> added.contains_key(t));
            }
            assert(added.restrict(keys@.to_set()) =~= added);
        }
    }

    /// Replaces the header's place of the page's directory.
    fn patch_header(&mut self, at: u64) -> (r: Result<(), Error>)
        requires
            old(self).wf(),
        ensures
            final(self).wf(),
            if at <= word_max(old(self)@.big_tiff) {
                &&& r is Ok
                &&& final(self)@ == (ClonerModel {
                    written: patched(
                        old(self)@.written,
                        header_slot(old(self)@.big_tiff),
                        word_bytes(old(self)@.endianness, at as int, old(self)@.big_tiff),
                    ),
                    ..old(self)@
                })
            } else {
                r == Err::<(), Error>(out_of_range()) && final(self)@ == old(self)@
            },
    {
        let word: Vec<u8> = match word_vec(at, self.endianness, self.big_tiff) {
            Ok(word) => word,
            Err(err) => return Err(err),
        };
        let start: usize = self.first_idf_offset as usize;
        let ghost w = self.writer@;
        let mut i: usize = 0;
        proof {
            assert(word@.len() == offset_width(self.big_tiff));
            assert(w =~= patched(w, start as int, word@.take(0)));
        }
        while i < word.len()
            invariant
                i <= word@.len(),
                word@.len() == offset_width(self.big_tiff),
                start == header_slot(self.big_tiff),
                self.wf(),
                self.endianness == old(self).endianness,
                self.big_tiff == old(self).big_tiff,
                self.additional_ifds == old(self).additional_ifds,
                w.len() >= start + word@.len(),
                self.writer@ == patched(w, start as int, word@.take(i as int)),
            decreases word@.len() - i,
        {
            let b: u8 = word[i];
            self.writer.set(start + i, b);
            proof {
                assert(self.writer@ =~= patched(w, start as int, word@.take(i + 1)));
            }
            i = i + 1;
        }
        proof {
            assert(word@.take(i as int) =~= word@);
        }
        Ok(())
    }

    /// Writes the clone of a file: what hangs off its page, the page with the added tags in place
    /// of its own, and the place of the page's directory in the header.
    pub fn clone_tiff(
        &mut self,
        tiff_tree: &Arena<ImageFileDirectory>,
        page_0: Token,
        source: &[u8],
    ) -> (r: Result<(), Error>)
        requires
            old(self).wf(),
            arena_nodes(*tiff_tree).contains_key(page_0),
        ensures
            final(self).wf(),
            final(self)@ == (ClonerModel { written: final(self)@.written, ..old(self)@ }),
            match r {
                Ok(()) => cloned_tiff(
                    old(self)@.written,
                    source@,
                    tree_page(*tiff_tree, page_0).entries,
                    tree_children(*tiff_tree, page_0),
                    old(self)@.added,
                    old(self)@.endianness,
                    old(self)@.big_tiff,
                ) == Some(final(self)@.written),
                Err(err) => {
                    &&& cloned_tiff(
                        old(self)@.written,
                        source@,
                        tree_page(*tiff_tree, page_0).entries,
                        tree_children(*tiff_tree, page_0),
                        old(self)@.added,
                        old(self)@.endianness,
                        old(self)@.big_tiff,
                    ) is None
                    &&& tiff_error(
                        old(self)@.written,
                        source@,
                        tree_page(*tiff_tree, page_0).entries,
                        tree_children(*tiff_tree, page_0),
                        old(self)@.added,
                        old(self)@.endianness,
                        old(self)@.big_tiff,
                        err,
                    )
                },
            },
            final(self)@.written == tiff_written(
                old(self)@.written,
                source@,
                tree_page(*tiff_tree, page_0).entries,
                tree_children(*tiff_tree, page_0),
                old(self)@.added,
                old(self)@.endianness,
                old(self)@.big_tiff,
            ),
    {
        let places = match self.clone_sub_files(tiff_tree, page_0, source) {
            Ok(places) => places,
            Err(err) => return Err(err),
        };
        let page_ifd: &ImageFileDirectory = arena_data(tiff_tree, page_0);
        let mut cloned_ifd = match self.clone_ifd_entries(&page_ifd.entries, source) {
            Ok(cloned_ifd) => cloned_ifd,
            Err(err) => return Err(err),
        };
        match self.clone_image_data(&mut cloned_ifd, source) {
            Ok(()) => (),
            Err(err) => return Err(err),
        }
        self.add_tags(&mut cloned_ifd);
        let e: Endianness = self.endianness;
        let big: bool = self.big_tiff;
        match set_places(&mut cloned_ifd, SUBFILE_TAG, &places.subfiles, e, big) {
            Ok(()) => (),
            Err(err) => return Err(err),
        }
        match set_places(&mut cloned_ifd, EXIFIFD_TAG, &places.exif, e, big) {
            Ok(()) => (),
            Err(err) => return Err(err),
        }
        match set_places(&mut cloned_ifd, GPSIFD_TAG, &places.gps, e, big) {
            Ok(()) => (),
            Err(err) => return Err(err),
        }
        let first_ifd_offset: u64 = match self.write_ifd(&mut cloned_ifd) {
            Ok(offset) => offset,
            Err(err) => return Err(err),
        };
        match self.patch_header(first_ifd_offset) {
            Ok(()) => (),
            Err(err) => return Err(err),
        }
        self.write_word(0)
    }
}

} // verus!
