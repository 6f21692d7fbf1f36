//! The TIFF format, byte by byte: what the header, the directories and the entries of a file say.
//!
//! Everything here is said of the bytes of a file, with the numbers that the format gives.

use vstd::prelude::*;

use crate::endian::{u16_at, u32_at, u64_at, Endianness};
use crate::error::Error;
use crate::numbers::{law_integers_are_read, number_of};
use crate::tiff::cloner::lemma_code_injective;
use crate::tiff::directory::{
    count_width, decoded_offset, entry_at, entry_count_at, entry_pos, ifd_at, ifd_fits,
    offset_width, order_mark, parse_header, parse_ifd, value_field, with_entries_at, word_at,
    IFDEntryType, IfdEntry, IfdType,
};
use crate::tiff::layout::{cloned_value, unit_width, value_len};
use crate::tiff::lemmas::{field_of, lemma_value_field, lemma_word_agree};
use crate::tiff::map::{parse_tiff, subfile_ifds, subfile_offsets, tagged_ifd};
use crate::tiff::values::lemma_field_offset;

verus! {

broadcast use crate::endian::group_widths;

/// Whether the lowest byte of an integer comes first.
pub open spec fn lowest_first(e: Endianness) -> bool {
    e == Endianness::Little
}

// Types.

/// The type that a number stands for.
pub open spec fn named_type(ty: u16) -> Option<IFDEntryType> {
    if ty == 1 {
        Some(IFDEntryType::Byte)
    } else if ty == 2 {
        Some(IFDEntryType::Ascii)
    } else if ty == 3 {
        Some(IFDEntryType::Short)
    } else if ty == 4 {
        Some(IFDEntryType::Long)
    } else if ty == 5 {
        Some(IFDEntryType::Rational)
    } else if ty == 6 {
        Some(IFDEntryType::Sbyte)
    } else if ty == 7 {
        Some(IFDEntryType::Undefined)
    } else if ty == 8 {
        Some(IFDEntryType::Sshort)
    } else if ty == 9 {
        Some(IFDEntryType::Slong)
    } else if ty == 10 {
        Some(IFDEntryType::Srational)
    } else if ty == 11 {
        Some(IFDEntryType::Float)
    } else if ty == 12 {
        Some(IFDEntryType::Double)
    } else if ty == 13 {
        Some(IFDEntryType::Ifd)
    } else if ty == 16 {
        Some(IFDEntryType::Long8)
    } else if ty == 17 {
        Some(IFDEntryType::Slong8)
    } else if ty == 18 {
        Some(IFDEntryType::Ifd8)
    } else {
        None
    }
}

/// The bytes that one value of the type with the number `ty` takes, or zero where there is no such
/// type.
pub open spec fn width_of(ty: u16) -> int {
    if ty == 1 || ty == 2 || ty == 6 || ty == 7 {
        1
    } else if ty == 3 || ty == 8 {
        2
    } else if ty == 4 || ty == 9 || ty == 11 || ty == 13 {
        4
    } else if ty == 5 || ty == 10 || ty == 12 || ty == 16 || ty == 17 || ty == 18 {
        8
    } else {
        0
    }
}

/// Each type has its number, and each number that has a type stands for one.
pub proof fn law_types_have_their_numbers(t: IFDEntryType, ty: u16)
    ensures
        t.code() == ty <==> named_type(ty) == Some(t),
        named_type(ty) is None <==> width_of(ty) == 0,
{
}

/// The values of a type are as wide as its number says.
pub proof fn law_types_have_their_widths(t: IFDEntryType, n: int)
    ensures
        unit_width(t) == width_of(t.code()),
        value_len(t, n) == width_of(t.code()) * n,
{
}

// Header.

/// The width of an offset, of a count and of the value field of an entry.
pub open spec fn word_width(big: bool) -> nat {
    if big {
        8
    } else {
        4
    }
}

/// Whether a file starts with the header of a TIFF file, or of a BigTIFF file.
pub open spec fn is_header(s: Seq<u8>, low: bool, big: bool) -> bool {
    &&& s.len() >= if big { 16int } else { 8 }
    &&& s[0] == if low { 0x49u8 } else { 0x4d }
    &&& s[1] == s[0]
    &&& number_of(s, 2, 2, low) == if big { 43int } else { 42 }
    &&& big ==> number_of(s, 4, 2, low) == 8 && number_of(s, 6, 2, low) == 0
}

/// Where the header of a file says that its first directory is.
pub open spec fn first_place(s: Seq<u8>, low: bool, big: bool) -> int {
    if big {
        number_of(s, 8, 8, low)
    } else {
        number_of(s, 4, 4, low)
    }
}

/// A header is read as what it says.
pub proof fn law_headers_are_read(s: Seq<u8>, low: bool, big: bool)
    requires
        is_header(s, low, big),
    ensures
        parse_header(s) matches Ok(h) && {
            &&& lowest_first(h.byte_order) == low
            &&& h.big_tiff == big
            &&& h.first_ifd_offset == first_place(s, low, big)
        },
{
    let e = order_mark(s)->0;
    law_integers_are_read(e, s, 2);
    law_integers_are_read(e, s, 4);
    law_integers_are_read(e, s, 6);
    law_integers_are_read(e, s, 8);
}

/// Whether the first bytes of a file, as far as there are any, are not those of a header.
pub open spec fn is_no_header(s: Seq<u8>) -> bool {
    let low = s[0] == 0x49;
    ||| s.len() >= 2 && !(s[0] == s[1] && (s[0] == 0x49 || s[0] == 0x4d))
    ||| 2 <= s.len() < 4
    ||| s.len() >= 4 && number_of(s, 2, 2, low) != 42 && number_of(s, 2, 2, low) != 43
    ||| s.len() >= 6 && number_of(s, 2, 2, low) == 43 && number_of(s, 4, 2, low) != 8
    ||| s.len() >= 8 && number_of(s, 2, 2, low) == 43 && number_of(s, 6, 2, low) != 0
}

/// What is read as a header is one. Other files are told from those that end too early.
pub proof fn law_only_headers_are_read(s: Seq<u8>)
    ensures
        match parse_header(s) {
            Ok(h) => is_header(s, lowest_first(h.byte_order), h.big_tiff),
            Err(err) => if is_no_header(s) {
                err == Error::InvalidAsset("Could not parse input image")
            } else {
                s.len() < 16 && err == Error::IoError
            },
        },
{
    let e = order_mark(s)->0;
    law_integers_are_read(e, s, 2);
    law_integers_are_read(e, s, 4);
    law_integers_are_read(e, s, 6);
}

// Directories.

/// How many entries the directory at `p` says that it has.
pub open spec fn entries_at(s: Seq<u8>, p: int, low: bool, big: bool) -> int {
    if big {
        number_of(s, p, 8, low)
    } else {
        number_of(s, p, 2, low)
    }
}

/// Where entry `k` of the directory at `p` starts.
pub open spec fn entry_start(p: int, k: int, big: bool) -> int {
    if big {
        p + 8 + 20 * k
    } else {
        p + 2 + 12 * k
    }
}

/// Whether all of the directory at `p` is there: its count, its entries and the offset of the next.
pub open spec fn has_directory(s: Seq<u8>, p: int, low: bool, big: bool) -> bool {
    &&& entry_start(p, 0, big) <= s.len()
    &&& entry_start(p, entries_at(s, p, low, big), big) + word_width(big) <= s.len()
}

/// The tag of entry `k` of the directory at `p`.
pub open spec fn tag_at(s: Seq<u8>, p: int, k: int, low: bool, big: bool) -> int {
    number_of(s, entry_start(p, k, big), 2, low)
}

/// The type of entry `k` of the directory at `p`.
pub open spec fn type_at(s: Seq<u8>, p: int, k: int, low: bool, big: bool) -> int {
    number_of(s, entry_start(p, k, big) + 2, 2, low)
}

/// The number of values of entry `k` of the directory at `p`.
pub open spec fn count_at(s: Seq<u8>, p: int, k: int, low: bool, big: bool) -> int {
    number_of(s, entry_start(p, k, big) + 4, word_width(big), low)
}

/// The value field of entry `k` of the directory at `p`.
pub open spec fn field_at(s: Seq<u8>, p: int, k: int, big: bool) -> Seq<u8> {
    let q = entry_start(p, k, big) + 4 + word_width(big);
    s.subrange(q, q + word_width(big))
}

/// Where entry `k` of the directory at `p` says that its values are.
pub open spec fn place_at(s: Seq<u8>, p: int, k: int, low: bool, big: bool) -> int {
    number_of(s, entry_start(p, k, big) + 4 + word_width(big), word_width(big), low)
}

/// Whether entry `k` of the directory at `p` is the one for the tag `t`: the last with that tag.
pub open spec fn is_entry_for(s: Seq<u8>, p: int, k: int, low: bool, big: bool, t: u16) -> bool {
    &&& 0 <= k < entries_at(s, p, low, big)
    &&& tag_at(s, p, k, low, big) == t
    &&& forall|j: int|
        k < j < entries_at(s, p, low, big) ==> #[trigger] tag_at(s, p, j, low, big) != t
}

proof fn lemma_words(s: Seq<u8>, p: int, e: Endianness, big: bool)
    ensures
        word_at(e, s, p, big) == number_of(s, p, word_width(big), lowest_first(e)),
        u16_at(e, s, p) == number_of(s, p, 2, lowest_first(e)),
        u32_at(e, s, p) == number_of(s, p, 4, lowest_first(e)),
        u64_at(e, s, p) == number_of(s, p, 8, lowest_first(e)),
        entry_count_at(s, p, e, big) == entries_at(s, p, lowest_first(e), big),
{
    law_integers_are_read(e, s, p);
}

/// A directory that is there is read with the number of its entries and the place of the next
/// directory, where there is one. One that is not all there is not read.
pub proof fn law_directories_are_read(s: Seq<u8>, p: int, e: Endianness, big: bool, ty: IfdType)
    requires
        0 <= p <= u64::MAX,
    ensures
        match parse_ifd(s, p, e, big, ty) {
            Ok(d) => {
                let low = lowest_first(e);
                let n = entries_at(s, p, low, big);
                let next = number_of(s, entry_start(p, n, big), word_width(big), low);
                &&& has_directory(s, p, low, big)
                &&& d.offset == p
                &&& d.entry_cnt == n
                &&& d.ifd_type == ty
                &&& next == 0 ==> d.next_ifd_offset is None
                &&& next != 0 ==> d.next_ifd_offset == Some(next as u64)
            },
            Err(err) => !has_directory(s, p, lowest_first(e), big) && err == Error::IoError,
        },
{
    lemma_words(s, p, e, big);
    let n = entry_count_at(s, p, e, big);
    lemma_words(s, entry_pos(p + count_width(big), n, big), e, big);
}

/// An entry is read as its bytes say.
proof fn lemma_entry_read(s: Seq<u8>, p: int, k: int, e: Endianness, big: bool)
    requires
        0 <= p,
        0 <= k,
        entry_start(p, k + 1, big) <= s.len(),
    ensures
        ({
            let low = lowest_first(e);
            let entry = entry_at(s, entry_pos(p + count_width(big), k, big), e, big);
            &&& entry.entry_tag == tag_at(s, p, k, low, big)
            &&& entry.entry_type == type_at(s, p, k, low, big)
            &&& entry.value_count == count_at(s, p, k, low, big)
            &&& field_of(entry, big) == field_at(s, p, k, big)
            &&& decoded_offset(entry.value_offset, e, big) == place_at(s, p, k, low, big)
        }),
{
    let q = entry_start(p, k, big);
    let f = q + 4 + word_width(big);
    let entry = entry_at(s, q, e, big);
    lemma_words(s, q, e, big);
    lemma_words(s, q + 2, e, big);
    lemma_words(s, q + 4, e, big);
    lemma_words(s, f, e, big);
    let field = field_at(s, p, k, big);
    assert forall|i: int| 0 <= i < offset_width(big) implies #[trigger] s[f + i] == field[0 + i] by {}
    lemma_word_agree(Endianness::Little, s, f, field, 0, big);
    lemma_word_agree(e, s, f, field, 0, big);
    lemma_value_field(field, big);
    lemma_field_offset(entry, e, big);
}

/// The entries that are read in turn, the last for each tag.
proof fn lemma_entries_read(s: Seq<u8>, p: int, e: Endianness, big: bool, n: int, t: u16)
    requires
        0 <= p,
        0 <= n,
        entry_start(p, n, big) <= s.len(),
    ensures
        ({
            let low = lowest_first(e);
            let m = with_entries_at(Map::empty(), s, p + count_width(big), e, big, n);
            &&& forall|k: int|
                0 <= k < n && #[trigger] tag_at(s, p, k, low, big) == t && (forall|j: int|
                    k < j < n ==> #[trigger] tag_at(s, p, j, low, big) != t) ==> m.contains_key(t)
                    && m[t] == entry_at(s, entry_pos(p + count_width(big), k, big), e, big)
            &&& m.contains_key(t) ==> exists|k: int|
                0 <= k < n && #[trigger] tag_at(s, p, k, low, big) == t && forall|j: int|
                    k < j < n ==> #[trigger] tag_at(s, p, j, low, big) != t
        }),
    decreases n,
{
    let low = lowest_first(e);
    if n > 0 {
        lemma_entries_read(s, p, e, big, n - 1, t);
        lemma_entry_read(s, p, n - 1, e, big);
        let less = with_entries_at(Map::empty(), s, p + count_width(big), e, big, n - 1);
        let m = with_entries_at(Map::empty(), s, p + count_width(big), e, big, n);
        if tag_at(s, p, n - 1, low, big) != t && m.contains_key(t) {
            assert(less.contains_key(t));
            let k = choose|k: int|
                0 <= k < n - 1 && #[trigger] tag_at(s, p, k, low, big) == t && forall|j: int|
                    k < j < n - 1 ==> #[trigger] tag_at(s, p, j, low, big) != t;
            assert(tag_at(s, p, k, low, big) == t);
        }
    }
}

/// The entry for a tag is read as its bytes say.
pub proof fn law_entries_are_read(
    s: Seq<u8>,
    p: int,
    e: Endianness,
    big: bool,
    ty: IfdType,
    k: int,
    t: u16,
)
    requires
        0 <= p,
        has_directory(s, p, lowest_first(e), big),
        is_entry_for(s, p, k, lowest_first(e), big, t),
    ensures
        ({
            let low = lowest_first(e);
            let entries = ifd_at(s, p, e, big, ty).entries;
            &&& entries.contains_key(t)
            &&& entries[t].entry_tag == t
            &&& entries[t].entry_type == type_at(s, p, k, low, big)
            &&& entries[t].value_count == count_at(s, p, k, low, big)
            &&& value_field(entries[t].value_offset).take(word_width(big) as int) == field_at(
                s,
                p,
                k,
                big,
            )
            &&& decoded_offset(entries[t].value_offset, e, big) == place_at(s, p, k, low, big)
        }),
{
    lemma_words(s, p, e, big);
    let n = entries_at(s, p, lowest_first(e), big);
    lemma_entries_read(s, p, e, big, n, t);
    lemma_entry_read(s, p, k, e, big);
}

/// No tags are read but those of entries.
pub proof fn law_tags_are_those_of_entries(
    s: Seq<u8>,
    p: int,
    e: Endianness,
    big: bool,
    ty: IfdType,
    t: u16,
)
    requires
        0 <= p,
        has_directory(s, p, lowest_first(e), big),
    ensures
        ifd_at(s, p, e, big, ty).entries.contains_key(t) ==> exists|k: int| #[trigger]
            is_entry_for(s, p, k, lowest_first(e), big, t),
{
    lemma_words(s, p, e, big);
    let low = lowest_first(e);
    let n = entries_at(s, p, low, big);
    lemma_entries_read(s, p, e, big, n, t);
    if ifd_at(s, p, e, big, ty).entries.contains_key(t) {
        let k = choose|k: int|
            0 <= k < n && #[trigger] tag_at(s, p, k, low, big) == t && forall|j: int|
                k < j < n ==> #[trigger] tag_at(s, p, j, low, big) != t;
        assert(is_entry_for(s, p, k, low, big, t));
    }
}

// Values.

/// The values of an entry are in its value field where they fit it and are narrower than eight
/// bytes; else they are where the entry says. All of them are read, or none.
pub proof fn law_values_are_read(s: Seq<u8>, entry: IfdEntry, e: Endianness, big: bool)
    ensures
        ({
            let width = width_of(entry.entry_type);
            let n = width * entry.value_count;
            let at = decoded_offset(entry.value_offset, e, big);
            match cloned_value(s, entry, e, big) {
                Ok(v) => {
                    &&& width != 0
                    &&& v.len() == n
                    &&& if n <= word_width(big) && width < 8 {
                        v == value_field(entry.value_offset).take(n)
                    } else {
                        at + n <= s.len() && v == s.subrange(at, at + n)
                    }
                },
                Err(err) => if width == 0 {
                    err == Error::UnsupportedType
                } else if n > u64::MAX || width < 8 && n > usize::MAX {
                    err == Error::InvalidAsset("value out of range")
                } else {
                    &&& n > word_width(big) || width == 8
                    &&& at + n > s.len()
                    &&& err == if width == 8 {
                        Error::BadParam("read past end of stream")
                    } else {
                        Error::IoError
                    }
                },
            }
        }),
{
    let named = named_type(entry.entry_type);
    assert(forall|t: IFDEntryType| #[trigger]
        t.code() == entry.entry_type ==> named == Some(t));
    if named is Some {
        let ty = named->0;
        assert(ty.code() == entry.entry_type);
        let chosen = choose|t: IFDEntryType| #[trigger] t.code() == entry.entry_type;
        lemma_code_injective(chosen, ty);
        law_types_have_their_widths(ty, entry.value_count as int);
    }
}

// The directories of a file.

/// The number of directories that the entry for subfiles lists, where there is one.
pub open spec fn subfiles(entries: Map<u16, IfdEntry>) -> int {
    if entries.contains_key(0x14a) {
        entries[0x14a].value_count as int
    } else {
        0
    }
}

/// Whether the list of subfiles stands in the entry for them.
pub open spec fn lists_subfiles(entry: IfdEntry, big: bool) -> bool {
    4 * entry.value_count <= word_width(big)
}

/// Where subfile `k` is: its place is in the entry for subfiles, or where that points to.
pub open spec fn subfile_place(
    s: Seq<u8>,
    entry: IfdEntry,
    e: Endianness,
    big: bool,
    k: int,
) -> int {
    if lists_subfiles(entry, big) {
        number_of(value_field(entry.value_offset), 4 * k, 4, lowest_first(e))
    } else {
        number_of(s, decoded_offset(entry.value_offset, e, big) + 4 * k, 4, lowest_first(e))
    }
}

/// Whether the directory that the entry for `t` points to is there, where there is such an entry.
pub open spec fn has_tagged(
    s: Seq<u8>,
    entries: Map<u16, IfdEntry>,
    t: u16,
    e: Endianness,
    big: bool,
) -> bool {
    entries.contains_key(t) ==> has_directory(
        s,
        decoded_offset(entries[t].value_offset, e, big),
        lowest_first(e),
        big,
    )
}

/// Whether the list of subfiles and the directories that it lists are there.
pub open spec fn has_subfiles(
    s: Seq<u8>,
    entries: Map<u16, IfdEntry>,
    e: Endianness,
    big: bool,
) -> bool {
    entries.contains_key(0x14a) ==> {
        let entry = entries[0x14a];
        let n = 4 * entry.value_count;
        let at = decoded_offset(entry.value_offset, e, big);
        &&& n <= usize::MAX
        &&& lists_subfiles(entry, big) || at + n <= s.len()
        &&& forall|k: int|
            0 <= k < subfiles(entries) ==> has_directory(
                s,
                #[trigger] subfile_place(s, entry, e, big, k),
                lowest_first(e),
                big,
            )
    }
}

proof fn lemma_subfiles(s: Seq<u8>, entries: Map<u16, IfdEntry>, e: Endianness, big: bool)
    ensures
        match subfile_ifds(s, entries, e, big) {
            Ok(found) => {
                &&& has_subfiles(s, entries, e, big)
                &&& found.len() == subfiles(entries)
                &&& forall|k: int|
                    0 <= k < found.len() ==> #[trigger] found[k] == ifd_at(
                        s,
                        subfile_place(s, entries[0x14a], e, big, k),
                        e,
                        big,
                        IfdType::Subfile,
                    )
            },
            Err(_) => !has_subfiles(s, entries, e, big),
        },
{
    let low = lowest_first(e);
    if entries.contains_key(0x14a) {
        let entry = entries[0x14a];
        let n = entry.value_count as int;
        let at = decoded_offset(entry.value_offset, e, big);
        if let Ok(offsets) = subfile_offsets(s, entry, e, big) {
            assert forall|k: int| 0 <= k < n implies {
                &&& #[trigger] offsets[k] == subfile_place(s, entry, e, big, k)
                &&& ifd_fits(s, offsets[k], e, big) == has_directory(s, offsets[k], low, big)
            } by {
                lemma_words(s, at + 4 * k, e, big);
                lemma_words(value_field(entry.value_offset), 4 * k, e, big);
                lemma_words(s, offsets[k], e, big);
            }
            if has_subfiles(s, entries, e, big) {
                assert forall|k: int| 0 <= k < offsets.len() implies #[trigger] ifd_fits(
                    s,
                    offsets[k],
                    e,
                    big,
                ) by {
                    assert(has_directory(s, subfile_place(s, entry, e, big, k), low, big));
                }
            }
            if subfile_ifds(s, entries, e, big) is Ok {
                assert forall|k: int| 0 <= k < n implies has_directory(
                    s,
                    #[trigger] subfile_place(s, entry, e, big, k),
                    low,
                    big,
                ) by {
                    assert(ifd_fits(s, offsets[k], e, big));
                }
            }
        }
    }
}

proof fn lemma_tagged(
    s: Seq<u8>,
    entries: Map<u16, IfdEntry>,
    t: u16,
    e: Endianness,
    big: bool,
    ty: IfdType,
)
    ensures
        match tagged_ifd(s, entries, t, e, big, ty) {
            Ok(found) => {
                &&& has_tagged(s, entries, t, e, big)
                &&& if entries.contains_key(t) {
                    found.len() == 1 && found[0] == ifd_at(
                        s,
                        decoded_offset(entries[t].value_offset, e, big),
                        e,
                        big,
                        ty,
                    )
                } else {
                    found.len() == 0
                }
            },
            Err(_) => !has_tagged(s, entries, t, e, big),
        },
{
    if entries.contains_key(t) {
        lemma_words(s, decoded_offset(entries[t].value_offset, e, big), e, big);
    }
}

/// A file is read where its first directory and all that hang off it are there: those listed as
/// subfiles, in their order, then the one of the camera's data, then the one of the position.
pub proof fn law_files_are_read(s: Seq<u8>)
    ensures
        match parse_tiff(s) {
            Ok(m) => {
                let e = m.byte_order;
                let big = m.big_tiff;
                let entries = m.page.entries;
                let exif = subfiles(entries);
                let gps = exif + if entries.contains_key(0x8769) { 1int } else { 0 };
                let first = first_place(s, lowest_first(e), big);
                &&& is_header(s, lowest_first(e), big)
                &&& has_directory(s, first, lowest_first(e), big)
                &&& m.page == ifd_at(s, first, e, big, IfdType::Page)
                &&& has_subfiles(s, entries, e, big)
                &&& has_tagged(s, entries, 0x8769, e, big)
                &&& has_tagged(s, entries, 0x8825, e, big)
                &&& m.children.len() == gps + if entries.contains_key(0x8825) { 1int } else { 0 }
                &&& forall|k: int|
                    0 <= k < exif ==> #[trigger] m.children[k] == ifd_at(
                        s,
                        subfile_place(s, entries[0x14a], e, big, k),
                        e,
                        big,
                        IfdType::Subfile,
                    )
                &&& entries.contains_key(0x8769) ==> m.children[exif] == ifd_at(
                    s,
                    decoded_offset(entries[0x8769].value_offset, e, big),
                    e,
                    big,
                    IfdType::Exif,
                )
                &&& entries.contains_key(0x8825) ==> m.children[gps] == ifd_at(
                    s,
                    decoded_offset(entries[0x8825].value_offset, e, big),
                    e,
                    big,
                    IfdType::Gps,
                )
            },
            Err(err) => match parse_header(s) {
                Err(header_err) => err == header_err,
                Ok(h) => {
                    let e = h.byte_order;
                    let big = h.big_tiff;
                    let first = first_place(s, lowest_first(e), big);
                    let entries = ifd_at(s, first, e, big, IfdType::Page).entries;
                    ||| !has_directory(s, first, lowest_first(e), big) && err == Error::IoError
                    ||| !has_subfiles(s, entries, e, big)
                    ||| !has_tagged(s, entries, 0x8769, e, big)
                    ||| !has_tagged(s, entries, 0x8825, e, big)
                },
            },
        },
{
    law_only_headers_are_read(s);
    if let Ok(h) = parse_header(s) {
        let e = h.byte_order;
        let big = h.big_tiff;
        law_headers_are_read(s, lowest_first(e), big);
        let first = h.first_ifd_offset as int;
        law_directories_are_read(s, first, e, big, IfdType::Page);
        let entries = ifd_at(s, first, e, big, IfdType::Page).entries;
        lemma_subfiles(s, entries, e, big);
        lemma_tagged(s, entries, 0x8769, e, big, IfdType::Exif);
        lemma_tagged(s, entries, 0x8825, e, big, IfdType::Gps);
    }
}

} // verus!
