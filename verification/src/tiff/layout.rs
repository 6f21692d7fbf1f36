//! What a cloned file holds, byte by byte.
//!
//! A clone is written from front to back: the header, the directories that hang off the page, the
//! page's image data, the values that do not fit their entries, and the page's directory. At the
//! end the header gets the place of the page's directory.

use vstd::prelude::*;

use crate::endian::{u16_at, u16_bytes, u32_at, u32_bytes, u64_at, u64_bytes, Endianness};
use crate::error::Error;
use crate::tiff::directory::{
    decoded_offset, offset_width, value_field, IFDEntryType, IfdEntry, IfdModel, IfdType,
    EXIFIFD_TAG, GPSIFD_TAG, STRIPBYTECOUNTS, STRIPOFFSETS, SUBFILE_TAG, TILEBYTECOUNTS,
    TILEOFFSETS,
};
use crate::tiff::map::{is_inline, out_of_range, past_end};
use crate::tiff::tags::sorted_tags;

verus! {

/// An entry of a cloned directory: `value_bytes` holds its whole value in the file's byte order.
#[derive(Clone, Debug, PartialEq, Eq)]
pub struct IfdClonedEntry {
    pub entry_tag: u16,
    pub entry_type: u16,
    pub value_count: u64,
    pub value_bytes: Vec<u8>,
}

/// What an [`IfdClonedEntry`] holds.
#[verifier::ext_equal]
pub struct ClonedModel {
    pub entry_tag: u16,
    pub entry_type: u16,
    pub value_count: u64,
    pub value_bytes: Seq<u8>,
}

impl View for IfdClonedEntry {
    type V = ClonedModel;

    open spec fn view(&self) -> ClonedModel {
        ClonedModel {
            entry_tag: self.entry_tag,
            entry_type: self.entry_type,
            value_count: self.value_count,
            value_bytes: self.value_bytes@,
        }
    }
}

/// What the entries of a cloned directory hold.
pub open spec fn models(m: Map<u16, IfdClonedEntry>) -> Map<u16, ClonedModel> {
    m.map_values(|c: IfdClonedEntry| c@)
}

/// The bytes that one value of a type takes.
pub open spec fn unit_width(t: IFDEntryType) -> int {
    match t {
        IFDEntryType::Byte | IFDEntryType::Ascii | IFDEntryType::Sbyte | IFDEntryType::Undefined =>
        1,
        IFDEntryType::Short | IFDEntryType::Sshort => 2,
        IFDEntryType::Long | IFDEntryType::Slong | IFDEntryType::Float | IFDEntryType::Ifd => 4,
        IFDEntryType::Rational
        | IFDEntryType::Srational
        | IFDEntryType::Double
        | IFDEntryType::Long8
        | IFDEntryType::Slong8
        | IFDEntryType::Ifd8 => 8,
    }
}

/// The bytes that `n` values of a type take.
pub open spec fn value_len(t: IFDEntryType, n: int) -> int {
    if unit_width(t) == 1 {
        n
    } else if unit_width(t) == 2 {
        2 * n
    } else if unit_width(t) == 4 {
        4 * n
    } else {
        8 * n
    }
}

/// The value of the type `t` that an entry of the source holds or points to.
///
/// Values of eight-byte types are always read from where the entry points.
pub open spec fn typed_value(
    s: Seq<u8>,
    entry: IfdEntry,
    t: IFDEntryType,
    e: Endianness,
    big: bool,
) -> Result<Seq<u8>, Error> {
    let n = value_len(t, entry.value_count as int);
    let at = decoded_offset(entry.value_offset, e, big);
    if n > u64::MAX {
        Err(out_of_range())
    } else if unit_width(t) == 8 {
        if at + n > s.len() {
            Err(past_end())
        } else {
            Ok(s.subrange(at, at + n))
        }
    } else if n > usize::MAX {
        Err(out_of_range())
    } else if is_inline(n, big) {
        Ok(value_field(entry.value_offset).take(n))
    } else if at + n > s.len() {
        Err(Error::IoError)
    } else {
        Ok(s.subrange(at, at + n))
    }
}

/// The value that an entry of the source holds or points to.
pub open spec fn cloned_value(s: Seq<u8>, entry: IfdEntry, e: Endianness, big: bool) -> Result<
    Seq<u8>,
    Error,
> {
    if exists|t: IFDEntryType| #[trigger] t.code() == entry.entry_type {
        let t = choose|t: IFDEntryType| #[trigger] t.code() == entry.entry_type;
        typed_value(s, entry, t, e, big)
    } else {
        Err(Error::UnsupportedType)
    }
}

/// Whether every entry of a directory of the source can be cloned.
pub open spec fn entries_clone(
    s: Seq<u8>,
    entries: Map<u16, IfdEntry>,
    e: Endianness,
    big: bool,
) -> bool {
    forall|t: u16|
        entries.contains_key(t) ==> (#[trigger] cloned_value(s, entries[t], e, big)) is Ok
}

/// The cloned entry for `tag`.
pub open spec fn cloned_entry(
    s: Seq<u8>,
    tag: u16,
    entry: IfdEntry,
    e: Endianness,
    big: bool,
) -> ClonedModel {
    ClonedModel {
        entry_tag: tag,
        entry_type: entry.entry_type,
        value_count: entry.value_count,
        value_bytes: cloned_value(s, entry, e, big)->Ok_0,
    }
}

/// The entries of a directory of the source, cloned.
pub open spec fn cloned_entries(
    s: Seq<u8>,
    entries: Map<u16, IfdEntry>,
    e: Endianness,
    big: bool,
) -> Map<u16, ClonedModel> {
    Map::new(
        |t: u16| entries.contains_key(t),
        |t: u16| cloned_entry(s, t, entries[t], e, big),
    )
}

/// Whether `err` is what some entry of a directory of the source fails with.
pub open spec fn entries_error(
    s: Seq<u8>,
    entries: Map<u16, IfdEntry>,
    e: Endianness,
    big: bool,
    err: Error,
) -> bool {
    exists|t: u16|
        entries.contains_key(t) && (#[trigger] cloned_value(s, entries[t], e, big)) == Err::<
            Seq<u8>,
            Error,
        >(err)
}

// Image data, which stands in strips or in tiles ("chunks").
pub open spec fn counts_tag(tiled: bool) -> u16 {
    if tiled {
        TILEBYTECOUNTS
    } else {
        STRIPBYTECOUNTS
    }
}

pub open spec fn offsets_tag(tiled: bool) -> u16 {
    if tiled {
        TILEOFFSETS
    } else {
        STRIPOFFSETS
    }
}

/// Whether a directory describes an image in chunks of the one kind and not of the other.
pub open spec fn has_chunks(m: Map<u16, ClonedModel>, tiled: bool) -> bool {
    &&& m.contains_key(counts_tag(tiled))
    &&& m.contains_key(offsets_tag(tiled))
    &&& !m.contains_key(counts_tag(!tiled))
    &&& !m.contains_key(offsets_tag(!tiled))
}

pub open spec fn count_mismatch(tiled: bool) -> Error {
    if tiled {
        Error::InvalidAsset("TIFF tile count does not match tile offset count")
    } else {
        Error::InvalidAsset("TIFF strip count does not match strip offset count")
    }
}

pub open spec fn invalid_chunk(tiled: bool) -> Error {
    if tiled {
        Error::InvalidAsset("invalid TIFF tile")
    } else {
        Error::InvalidAsset("invalid TIFF strip")
    }
}

/// Whether byte counts and offsets may have the type `ty`: LONG, SHORT or LONG8.
pub open spec fn is_number_type(ty: u16) -> bool {
    ty == 4 || ty == 3 || ty == 16
}

/// Whether the offsets of chunks may have the type `ty`: those of tiles may not be SHORT.
pub open spec fn is_offset_type(ty: u16, tiled: bool) -> bool {
    ty == 4 || ty == 3 && !tiled || ty == 16
}

/// The bytes that `n` numbers of the type `ty` take.
pub open spec fn numbers_len(ty: u16, n: int) -> int {
    if ty == 4 {
        4 * n
    } else if ty == 3 {
        2 * n
    } else {
        8 * n
    }
}

/// The number at index `i` of the numbers of type `ty` in `b`.
pub open spec fn number_at(e: Endianness, b: Seq<u8>, ty: u16, i: int) -> int {
    if ty == 4 {
        u32_at(e, b, 4 * i)
    } else if ty == 3 {
        u16_at(e, b, 2 * i)
    } else {
        u64_at(e, b, 8 * i)
    }
}

/// The bytes of one number of type `ty`.
pub open spec fn number_bytes(e: Endianness, ty: u16, v: int) -> Seq<u8> {
    if ty == 4 {
        u32_bytes(e, v)
    } else if ty == 3 {
        u16_bytes(e, v)
    } else {
        u64_bytes(e, v)
    }
}

/// The largest number of type `ty`.
pub open spec fn number_max(ty: u16) -> int {
    if ty == 4 {
        u32::MAX as int
    } else if ty == 3 {
        u16::MAX as int
    } else {
        u64::MAX as int
    }
}

/// The bytes of numbers of type `ty`.
pub open spec fn numbers_bytes(e: Endianness, ty: u16, vs: Seq<int>) -> Seq<u8>
    decreases vs.len(),
{
    if vs.len() == 0 {
        Seq::empty()
    } else {
        numbers_bytes(e, ty, vs.drop_last()) + number_bytes(e, ty, vs.last())
    }
}

/// The byte counts of `n` chunks.
pub open spec fn chunk_counts(e: Endianness, c: ClonedModel, tiled: bool) -> Result<
    Seq<int>,
    Error,
> {
    let n = c.value_count as int;
    if n == 0 {
        Ok(Seq::empty())
    } else if !is_number_type(c.entry_type) {
        Err(invalid_chunk(tiled))
    } else if numbers_len(c.entry_type, n) > c.value_bytes.len() {
        Err(Error::IoError)
    } else {
        Ok(Seq::new(n as nat, |i: int| number_at(e, c.value_bytes, c.entry_type, i)))
    }
}

/// The offset of chunk `i`.
pub open spec fn chunk_offset(e: Endianness, o: ClonedModel, tiled: bool, i: int) -> Result<
    int,
    Error,
> {
    if !is_offset_type(o.entry_type, tiled) {
        Err(invalid_chunk(tiled))
    } else if numbers_len(o.entry_type, i + 1) > o.value_bytes.len() {
        Err(Error::IoError)
    } else {
        Ok(number_at(e, o.value_bytes, o.entry_type, i))
    }
}

/// `w` with the first `k` chunks of the source appended, and where each was put.
pub open spec fn copied_chunks(
    w: Seq<u8>,
    s: Seq<u8>,
    counts: Seq<int>,
    o: ClonedModel,
    e: Endianness,
    tiled: bool,
    k: int,
) -> Result<(Seq<u8>, Seq<int>), Error>
    decreases k,
{
    if k <= 0 {
        Ok((w, Seq::empty()))
    } else {
        match copied_chunks(w, s, counts, o, e, tiled, k - 1) {
            Err(err) => Err(err),
            Ok((w1, at)) => {
                let n = counts[k - 1];
                if n > usize::MAX {
                    Err(out_of_range())
                } else {
                    match chunk_offset(e, o, tiled, k - 1) {
                        Err(err) => Err(err),
                        Ok(p) => if p + n > s.len() {
                            Err(past_end())
                        } else {
                            Ok((w1 + s.subrange(p, p + n), at.push(w1.len() as int)))
                        },
                    }
                }
            },
        }
    }
}

/// The entry `o` with the numbers that its value starts with replaced by `at`.
pub open spec fn with_offsets(e: Endianness, o: ClonedModel, at: Seq<int>) -> ClonedModel {
    let b = numbers_bytes(e, o.entry_type, at);
    ClonedModel {
        value_bytes: b + o.value_bytes.subrange(b.len() as int, o.value_bytes.len() as int),
        ..o
    }
}

/// The chunks of one kind copied behind `w`, and the directory with their new offsets.
pub open spec fn cloned_chunks(
    w: Seq<u8>,
    s: Seq<u8>,
    m: Map<u16, ClonedModel>,
    e: Endianness,
    tiled: bool,
) -> Result<(Seq<u8>, Map<u16, ClonedModel>), Error> {
    let c = m[counts_tag(tiled)];
    let o = m[offsets_tag(tiled)];
    if o.value_count != c.value_count {
        Err(count_mismatch(tiled))
    } else {
        match chunk_counts(e, c, tiled) {
            Err(err) => Err(err),
            Ok(counts) => match copied_chunks(w, s, counts, o, e, tiled, counts.len() as int) {
                Err(err) => Err(err),
                Ok((w1, at)) => if exists|i: int|
                    0 <= i < at.len() && #[trigger] at[i] > number_max(o.entry_type) {
                    Err(out_of_range())
                } else {
                    Ok((w1, m.insert(offsets_tag(tiled), with_offsets(e, o, at))))
                },
            },
        }
    }
}

/// `w` with the first `k` chunks of the source appended as far as they can be copied, and where
/// each was put.
pub open spec fn copied_until(
    w: Seq<u8>,
    s: Seq<u8>,
    counts: Seq<int>,
    o: ClonedModel,
    e: Endianness,
    tiled: bool,
    k: int,
) -> (Seq<u8>, Seq<int>)
    decreases k,
{
    match copied_chunks(w, s, counts, o, e, tiled, k) {
        Ok(all) => all,
        Err(_) => if k <= 0 {
            (w, Seq::empty())
        } else {
            copied_until(w, s, counts, o, e, tiled, k - 1)
        },
    }
}

/// How many numbers of type `ty` there are before the first of `vs` that is too large.
pub open spec fn fitting(vs: Seq<int>, ty: u16) -> int
    decreases vs.len(),
{
    if vs.len() == 0 {
        0
    } else if fitting(vs.drop_last(), ty) < vs.len() - 1 || vs.last() > number_max(ty) {
        fitting(vs.drop_last(), ty)
    } else {
        vs.len() as int
    }
}

/// What has been written, and the directory, once the chunks of one kind have been copied or one
/// could not be. The directory changes only when all are copied, and then as far as the new
/// offsets fit.
pub open spec fn chunks_left(
    w: Seq<u8>,
    s: Seq<u8>,
    m: Map<u16, ClonedModel>,
    e: Endianness,
    tiled: bool,
) -> (Seq<u8>, Map<u16, ClonedModel>) {
    let c = m[counts_tag(tiled)];
    let o = m[offsets_tag(tiled)];
    match chunk_counts(e, c, tiled) {
        Ok(counts) if o.value_count == c.value_count => {
            let n = counts.len() as int;
            let (w1, at) = copied_until(w, s, counts, o, e, tiled, n);
            if copied_chunks(w, s, counts, o, e, tiled, n) is Ok {
                let fit = at.take(fitting(at, o.entry_type));
                (w1, m.insert(offsets_tag(tiled), with_offsets(e, o, fit)))
            } else {
                (w1, m)
            }
        },
        _ => (w, m),
    }
}

/// The image data that a directory describes copied behind `w`, and the directory with the new
/// offsets. A directory that has not just strips or just tiles is left as it is.
pub open spec fn cloned_image(w: Seq<u8>, s: Seq<u8>, m: Map<u16, ClonedModel>, e: Endianness) -> Result<
    (Seq<u8>, Map<u16, ClonedModel>),
    Error,
> {
    if has_chunks(m, false) {
        cloned_chunks(w, s, m, e, false)
    } else if has_chunks(m, true) {
        cloned_chunks(w, s, m, e, true)
    } else {
        Ok((w, m))
    }
}

/// What has been written, and the directory, once its image data has been copied or could not be.
pub open spec fn image_left(w: Seq<u8>, s: Seq<u8>, m: Map<u16, ClonedModel>, e: Endianness) -> (
    Seq<u8>,
    Map<u16, ClonedModel>,
) {
    if has_chunks(m, false) {
        chunks_left(w, s, m, e, false)
    } else if has_chunks(m, true) {
        chunks_left(w, s, m, e, true)
    } else {
        (w, m)
    }
}

// Directories.

/// The bytes of an integer of the width of an offset.
pub open spec fn word_bytes(e: Endianness, v: int, big: bool) -> Seq<u8> {
    if big {
        u64_bytes(e, v)
    } else {
        u32_bytes(e, v)
    }
}

/// The largest integer of the width of an offset.
pub open spec fn word_max(big: bool) -> int {
    if big {
        u64::MAX as int
    } else {
        u32::MAX as int
    }
}

pub open spec fn zeros(n: int) -> Seq<u8> {
    Seq::new(n as nat, |i: int| 0u8)
}

/// A value that fits the value field of an entry, padded to its width.
pub open spec fn inline_field(v: Seq<u8>, big: bool) -> Seq<u8> {
    v + zeros(offset_width(big) - v.len())
}

/// `w` with the values of the tags `ks` that do not fit their entries appended, and the value
/// field of each. There is none where an offset does not fit.
pub open spec fn placed_values(
    w: Seq<u8>,
    m: Map<u16, ClonedModel>,
    ks: Seq<u16>,
    e: Endianness,
    big: bool,
) -> Option<(Seq<u8>, Seq<Seq<u8>>)>
    decreases ks.len(),
{
    if ks.len() == 0 {
        Some((w, Seq::empty()))
    } else {
        match placed_values(w, m, ks.drop_last(), e, big) {
            None => None,
            Some((w1, fields)) => {
                let v = m[ks.last()].value_bytes;
                if v.len() <= offset_width(big) {
                    Some((w1, fields.push(inline_field(v, big))))
                } else if w1.len() > word_max(big) {
                    None
                } else {
                    Some((w1 + v, fields.push(word_bytes(e, w1.len() as int, big))))
                }
            },
        }
    }
}

/// `w` with the values of the tags `ks` that do not fit their entries appended as far as their
/// offsets fit, and the value fields of these tags.
pub open spec fn placed_until(
    w: Seq<u8>,
    m: Map<u16, ClonedModel>,
    ks: Seq<u16>,
    e: Endianness,
    big: bool,
) -> (Seq<u8>, Seq<Seq<u8>>)
    decreases ks.len(),
{
    match placed_values(w, m, ks, e, big) {
        Some(all) => all,
        None => if ks.len() == 0 {
            (w, Seq::empty())
        } else {
            placed_until(w, m, ks.drop_last(), e, big)
        },
    }
}

/// An entry with its value field in place of its value.
pub open spec fn with_field(c: ClonedModel, field: Seq<u8>) -> ClonedModel {
    ClonedModel { value_bytes: field, ..c }
}

/// `m` with the value fields `fields` of the tags `ks` in place of their values.
pub open spec fn with_fields(
    m: Map<u16, ClonedModel>,
    ks: Seq<u16>,
    fields: Seq<Seq<u8>>,
) -> Map<u16, ClonedModel>
    decreases ks.len(),
{
    if ks.len() == 0 {
        m
    } else {
        with_fields(m, ks.drop_last(), fields.drop_last()).insert(
            ks.last(),
            with_field(m[ks.last()], fields.last()),
        )
    }
}

/// The entries of a directory once it has been written behind `w`, or could not be: each that was
/// reached has its value field in place of its value.
pub open spec fn ifd_left(w: Seq<u8>, m: Map<u16, ClonedModel>, e: Endianness, big: bool) -> Map<
    u16,
    ClonedModel,
> {
    let ks = sorted_tags(m.dom());
    let fields = placed_until(w, m, ks, e, big).1;
    with_fields(m, ks.take(fields.len() as int), fields)
}

/// `w` padded to a multiple of four.
pub open spec fn padded(w: Seq<u8>) -> Seq<u8> {
    w + zeros((4 - w.len() % 4) % 4)
}

/// One entry of a directory.
pub open spec fn entry_bytes(
    tag: u16,
    c: ClonedModel,
    field: Seq<u8>,
    e: Endianness,
    big: bool,
) -> Seq<u8> {
    u16_bytes(e, tag as int) + u16_bytes(e, c.entry_type as int) + word_bytes(
        e,
        c.value_count as int,
        big,
    ) + field
}

/// The entries of a directory.
pub open spec fn entries_bytes(
    m: Map<u16, ClonedModel>,
    ks: Seq<u16>,
    fields: Seq<Seq<u8>>,
    e: Endianness,
    big: bool,
) -> Seq<u8>
    decreases ks.len(),
{
    if ks.len() == 0 {
        Seq::empty()
    } else {
        entries_bytes(m, ks.drop_last(), fields.drop_last(), e, big) + entry_bytes(
            ks.last(),
            m[ks.last()],
            fields.last(),
            e,
            big,
        )
    }
}

/// The number of entries that a directory starts with.
pub open spec fn count_bytes(e: Endianness, n: int, big: bool) -> Seq<u8> {
    if big {
        u64_bytes(e, n)
    } else {
        u16_bytes(e, n)
    }
}

/// Whether the numbers of a directory fit their places.
pub open spec fn counts_fit(m: Map<u16, ClonedModel>, ks: Seq<u16>, big: bool) -> bool {
    big || ks.len() <= u16::MAX && forall|i: int|
        0 <= i < ks.len() ==> (#[trigger] m[ks[i]]).value_count <= u32::MAX
}

/// `w` with a directory appended but for the offset of the next, and where the directory starts.
/// There is none where a number does not fit its place.
pub open spec fn written_ifd(w: Seq<u8>, m: Map<u16, ClonedModel>, e: Endianness, big: bool) -> Option<
    (Seq<u8>, int),
> {
    let ks = sorted_tags(m.dom());
    match placed_values(w, m, ks, e, big) {
        None => None,
        Some((w1, fields)) => if counts_fit(m, ks, big) {
            let start = padded(w1);
            Some(
                (
                    start + count_bytes(e, ks.len() as int, big) + entries_bytes(
                        m,
                        ks,
                        fields,
                        e,
                        big,
                    ),
                    start.len() as int,
                ),
            )
        } else {
            None
        },
    }
}

/// How many of the tags `ks` there are before the first whose count does not fit its place.
pub open spec fn counts_fitting(m: Map<u16, ClonedModel>, ks: Seq<u16>, big: bool) -> int
    decreases ks.len(),
{
    if ks.len() == 0 {
        0
    } else if counts_fitting(m, ks.drop_last(), big) < ks.len() - 1 || m[ks.last()].value_count
        > word_max(big) {
        counts_fitting(m, ks.drop_last(), big)
    } else {
        ks.len() as int
    }
}

/// The entries of a directory as far as their counts fit, and the tag and the type of the first
/// whose count does not.
pub open spec fn entries_left(
    m: Map<u16, ClonedModel>,
    ks: Seq<u16>,
    fields: Seq<Seq<u8>>,
    e: Endianness,
    big: bool,
) -> Seq<u8> {
    let n = counts_fitting(m, ks, big);
    let done = entries_bytes(m, ks.take(n), fields.take(n), e, big);
    if n < ks.len() {
        done + u16_bytes(e, ks[n] as int) + u16_bytes(e, m[ks[n]].entry_type as int)
    } else {
        done
    }
}

/// `w` with a directory appended, as far as its numbers fit their places.
pub open spec fn ifd_written(w: Seq<u8>, m: Map<u16, ClonedModel>, e: Endianness, big: bool) -> Seq<
    u8,
> {
    let ks = sorted_tags(m.dom());
    let (w1, fields) = placed_until(w, m, ks, e, big);
    if placed_values(w, m, ks, e, big) is None {
        w1 + m[ks[fields.len() as int]].value_bytes
    } else if !big && ks.len() > u16::MAX {
        padded(w1)
    } else {
        padded(w1) + count_bytes(e, ks.len() as int, big) + entries_left(m, ks, fields, e, big)
    }
}

// The directories that hang off a page.

/// `w` with a directory of the source and what it describes appended, and where it starts.
#[verifier::opaque]
pub open spec fn cloned_child(
    w: Seq<u8>,
    s: Seq<u8>,
    entries: Map<u16, IfdEntry>,
    e: Endianness,
    big: bool,
) -> Option<(Seq<u8>, int)> {
    if !entries_clone(s, entries, e, big) {
        None
    } else {
        match cloned_image(w, s, cloned_entries(s, entries, e, big), e) {
            Err(_) => None,
            Ok((w1, m)) => match written_ifd(w1, m, e, big) {
                None => None,
                Some((w2, at)) => Some((w2 + word_bytes(e, 0, big), at)),
            },
        }
    }
}

/// What cloning a directory of the source may fail with.
#[verifier::opaque]
pub open spec fn child_error(
    w: Seq<u8>,
    s: Seq<u8>,
    entries: Map<u16, IfdEntry>,
    e: Endianness,
    big: bool,
    err: Error,
) -> bool {
    if !entries_clone(s, entries, e, big) {
        entries_error(s, entries, e, big, err)
    } else {
        match cloned_image(w, s, cloned_entries(s, entries, e, big), e) {
            Err(image_err) => err == image_err,
            Ok((w1, m)) => written_ifd(w1, m, e, big) is None && err == out_of_range(),
        }
    }
}

/// `w` with a directory of the source and what it describes appended, as far as it can be cloned.
#[verifier::opaque]
pub open spec fn child_written(
    w: Seq<u8>,
    s: Seq<u8>,
    entries: Map<u16, IfdEntry>,
    e: Endianness,
    big: bool,
) -> Seq<u8> {
    if !entries_clone(s, entries, e, big) {
        w
    } else {
        let cloned = cloned_entries(s, entries, e, big);
        let (w1, m) = image_left(w, s, cloned, e);
        if cloned_image(w, s, cloned, e) is Err {
            w1
        } else if written_ifd(w1, m, e, big) is None {
            ifd_written(w1, m, e, big)
        } else {
            ifd_written(w1, m, e, big) + word_bytes(e, 0, big)
        }
    }
}

/// `w` with directories of the source appended, as far as they can be cloned.
pub open spec fn children_written(
    w: Seq<u8>,
    s: Seq<u8>,
    children: Seq<IfdModel>,
    e: Endianness,
    big: bool,
) -> Seq<u8>
    decreases children.len(),
{
    if children.len() == 0 {
        w
    } else {
        match cloned_children(w, s, children.drop_last(), e, big) {
            None => children_written(w, s, children.drop_last(), e, big),
            Some((w1, _)) => child_written(w1, s, children.last().entries, e, big),
        }
    }
}

/// `w` with directories of the source appended, and where each starts.
pub open spec fn cloned_children(
    w: Seq<u8>,
    s: Seq<u8>,
    children: Seq<IfdModel>,
    e: Endianness,
    big: bool,
) -> Option<(Seq<u8>, Seq<int>)>
    decreases children.len(),
{
    if children.len() == 0 {
        Some((w, Seq::empty()))
    } else {
        match cloned_children(w, s, children.drop_last(), e, big) {
            None => None,
            Some((w1, at)) => match cloned_child(w1, s, children.last().entries, e, big) {
                None => None,
                Some((w2, start)) => Some((w2, at.push(start))),
            },
        }
    }
}

/// What cloning directories of the source may fail with: what the first fails with that cannot be
/// cloned.
pub open spec fn children_error(
    w: Seq<u8>,
    s: Seq<u8>,
    children: Seq<IfdModel>,
    e: Endianness,
    big: bool,
    err: Error,
) -> bool {
    exists|k: int|
        0 <= k < children.len() && match #[trigger] cloned_children(
            w,
            s,
            children.take(k),
            e,
            big,
        ) {
            Some((w1, _)) => child_error(w1, s, children[k].entries, e, big, err),
            None => false,
        }
}

/// The places, of those in `at`, of the directories of type `ty`.
pub open spec fn places_of(children: Seq<IfdModel>, at: Seq<int>, ty: IfdType) -> Seq<int>
    decreases children.len(),
{
    if children.len() == 0 {
        Seq::empty()
    } else {
        let rest = places_of(children.drop_last(), at.drop_last(), ty);
        if children.last().ifd_type == ty {
            rest.push(at.last())
        } else {
            rest
        }
    }
}

/// The bytes of offsets.
pub open spec fn words_bytes(e: Endianness, vs: Seq<int>, big: bool) -> Seq<u8>
    decreases vs.len(),
{
    if vs.len() == 0 {
        Seq::empty()
    } else {
        words_bytes(e, vs.drop_last(), big) + word_bytes(e, vs.last(), big)
    }
}

/// The page's directory with the value of `tag` replaced by the offsets `at`, if there are any.
pub open spec fn with_places(
    m: Map<u16, ClonedModel>,
    tag: u16,
    at: Seq<int>,
    e: Endianness,
    big: bool,
) -> Result<Map<u16, ClonedModel>, Error> {
    if at.len() == 0 {
        Ok(m)
    } else if !m.contains_key(tag) {
        Err(Error::InvalidAsset("TIFF does not have IFD"))
    } else if exists|i: int| 0 <= i < at.len() && #[trigger] at[i] > word_max(big) {
        Err(out_of_range())
    } else {
        Ok(m.insert(tag, ClonedModel { value_bytes: words_bytes(e, at, big), ..m[tag] }))
    }
}

/// The page's directory with the places of the directories that hang off it.
pub open spec fn with_child_places(
    m: Map<u16, ClonedModel>,
    children: Seq<IfdModel>,
    at: Seq<int>,
    e: Endianness,
    big: bool,
) -> Result<Map<u16, ClonedModel>, Error> {
    match with_places(m, SUBFILE_TAG, places_of(children, at, IfdType::Subfile), e, big) {
        Err(err) => Err(err),
        Ok(m1) => match with_places(
            m1,
            EXIFIFD_TAG,
            places_of(children, at, IfdType::Exif),
            e,
            big,
        ) {
            Err(err) => Err(err),
            Ok(m2) => with_places(m2, GPSIFD_TAG, places_of(children, at, IfdType::Gps), e, big),
        },
    }
}

// The whole file.

/// Where the header holds the place of the page's directory.
pub open spec fn header_slot(big: bool) -> int {
    if big {
        8
    } else {
        4
    }
}

/// The header, with no place for the page's directory yet.
pub open spec fn blank_header(e: Endianness, big: bool) -> Seq<u8> {
    let mark: u8 = match e {
        Endianness::Little => 0x49,
        Endianness::Big => 0x4d,
    };
    if big {
        seq![mark, mark] + u16_bytes(e, 43) + u16_bytes(e, 8) + u16_bytes(e, 0) + u64_bytes(e, 0)
    } else {
        seq![mark, mark] + u16_bytes(e, 42) + u32_bytes(e, 0)
    }
}

/// `w` with the bytes from `p` replaced by `b`.
pub open spec fn patched(w: Seq<u8>, p: int, b: Seq<u8>) -> Seq<u8> {
    w.subrange(0, p) + b + w.subrange(p + b.len(), w.len() as int)
}

/// The page's directory, as it is written, and all that stands before it.
pub open spec fn cloned_page(
    w: Seq<u8>,
    s: Seq<u8>,
    page: Map<u16, IfdEntry>,
    children: Seq<IfdModel>,
    added: Map<u16, ClonedModel>,
    e: Endianness,
    big: bool,
) -> Option<(Seq<u8>, Map<u16, ClonedModel>)> {
    match cloned_children(w, s, children, e, big) {
        None => None,
        Some((w1, at)) => if !entries_clone(s, page, e, big) {
            None
        } else {
            match cloned_image(w1, s, cloned_entries(s, page, e, big), e) {
                Err(_) => None,
                Ok((w2, m)) => match with_child_places(
                    m.union_prefer_right(added),
                    children,
                    at,
                    e,
                    big,
                ) {
                    Err(_) => None,
                    Ok(m1) => Some((w2, m1)),
                },
            }
        },
    }
}

/// A clone behind the header `w`: the page with the tags `added`, and what hangs off it.
pub open spec fn cloned_tiff(
    w: Seq<u8>,
    s: Seq<u8>,
    page: Map<u16, IfdEntry>,
    children: Seq<IfdModel>,
    added: Map<u16, ClonedModel>,
    e: Endianness,
    big: bool,
) -> Option<Seq<u8>> {
    match cloned_page(w, s, page, children, added, e, big) {
        None => None,
        Some((w1, m)) => match written_ifd(w1, m, e, big) {
            None => None,
            Some((w2, at)) => if at > word_max(big) {
                None
            } else {
                Some(patched(w2, header_slot(big), word_bytes(e, at, big)) + word_bytes(e, 0, big))
            },
        },
    }
}

/// What cloning may fail with.
pub open spec fn tiff_error(
    w: Seq<u8>,
    s: Seq<u8>,
    page: Map<u16, IfdEntry>,
    children: Seq<IfdModel>,
    added: Map<u16, ClonedModel>,
    e: Endianness,
    big: bool,
    err: Error,
) -> bool {
    match cloned_children(w, s, children, e, big) {
        None => children_error(w, s, children, e, big, err),
        Some((w1, at)) => if !entries_clone(s, page, e, big) {
            entries_error(s, page, e, big, err)
        } else {
            match cloned_image(w1, s, cloned_entries(s, page, e, big), e) {
                Err(image_err) => err == image_err,
                Ok((w2, m)) => match with_child_places(
                    m.union_prefer_right(added),
                    children,
                    at,
                    e,
                    big,
                ) {
                    Err(place_err) => err == place_err,
                    Ok(m1) => cloned_tiff(w, s, page, children, added, e, big) is None && err
                        == out_of_range(),
                },
            }
        },
    }
}

/// What has been written behind the header `w` once a file has been cloned or could not be. The
/// header gets the place of the page's directory only when all is written.
pub open spec fn tiff_written(
    w: Seq<u8>,
    s: Seq<u8>,
    page: Map<u16, IfdEntry>,
    children: Seq<IfdModel>,
    added: Map<u16, ClonedModel>,
    e: Endianness,
    big: bool,
) -> Seq<u8> {
    match cloned_children(w, s, children, e, big) {
        None => children_written(w, s, children, e, big),
        Some((w1, at)) => if !entries_clone(s, page, e, big) {
            w1
        } else {
            let cloned = cloned_entries(s, page, e, big);
            let (w2, m) = image_left(w1, s, cloned, e);
            match (
                cloned_image(w1, s, cloned, e),
                with_child_places(m.union_prefer_right(added), children, at, e, big),
                cloned_tiff(w, s, page, children, added, e, big),
            ) {
                (_, _, Some(out)) => out,
                (Ok(_), Ok(m1), None) => ifd_written(w2, m1, e, big),
                _ => w2,
            }
        },
    }
}

} // verus!
