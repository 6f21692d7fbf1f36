//! The structure of a TIFF file: header, image file directories and their entries.

use vstd::prelude::*;

use std::collections::HashMap;
use std::collections::hash_map::Entry;

use crate::endian::{read_u16, read_u32, read_u64, Endianness};
use crate::endian::{u16_at, u32_at, u64_at, u64_bytes};
use crate::error::Error;

verus! {

broadcast use {vstd::std_specs::hash::group_hash_axioms, crate::endian::group_widths};

pub const C2PA_TAG: u16 = 0xcd41;

pub const XMP_TAG: u16 = 0x02bc;

pub const SUBFILE_TAG: u16 = 0x014a;

pub const EXIFIFD_TAG: u16 = 0x8769;

pub const GPSIFD_TAG: u16 = 0x8825;

pub const C2PA_FIELD_TYPE: u16 = 7;

pub const STRIPBYTECOUNTS: u16 = 279;

pub const STRIPOFFSETS: u16 = 273;

pub const TILEBYTECOUNTS: u16 = 325;

pub const TILEOFFSETS: u16 = 324;

/// The type of an IFD entry.
#[derive(Clone, Copy, Debug, PartialEq, Eq, Structural)]
pub enum IFDEntryType {
    /// 8-bit unsigned integer
    Byte,
    /// 8-bit byte that contains a 7-bit ASCII code; the last byte must be zero
    Ascii,
    /// 16-bit unsigned integer
    Short,
    /// 32-bit unsigned integer
    Long,
    /// Fraction stored as two 32-bit unsigned integers
    Rational,
    /// 8-bit signed integer
    Sbyte,
    /// 8-bit byte that may contain anything, depending on the field
    Undefined,
    /// 16-bit signed integer
    Sshort,
    /// 32-bit signed integer
    Slong,
    /// Fraction stored as two 32-bit signed integers
    Srational,
    /// 32-bit IEEE floating point
    Float,
    /// 64-bit IEEE floating point
    Double,
    /// 32-bit unsigned integer (offset)
    Ifd,
    /// BigTIFF 64-bit unsigned integer
    Long8,
    /// BigTIFF 64-bit signed integer
    Slong8,
    /// BigTIFF 64-bit unsigned integer (offset)
    Ifd8,
}

impl IFDEntryType {
    /// The number that stands for the type in a file.
    pub open spec fn code(self) -> u16 {
        match self {
            IFDEntryType::Byte => 1,
            IFDEntryType::Ascii => 2,
            IFDEntryType::Short => 3,
            IFDEntryType::Long => 4,
            IFDEntryType::Rational => 5,
            IFDEntryType::Sbyte => 6,
            IFDEntryType::Undefined => 7,
            IFDEntryType::Sshort => 8,
            IFDEntryType::Slong => 9,
            IFDEntryType::Srational => 10,
            IFDEntryType::Float => 11,
            IFDEntryType::Double => 12,
            IFDEntryType::Ifd => 13,
            IFDEntryType::Long8 => 16,
            IFDEntryType::Slong8 => 17,
            IFDEntryType::Ifd8 => 18,
        }
    }

    /// The type that `val` stands for, if any.
    pub fn from_u16(val: u16) -> (r: Option<IFDEntryType>)
        ensures
            r matches Some(t) ==> t.code() == val,
            r is None ==> forall|t: IFDEntryType| t.code() != val,
    {
        match val {
            1 => Some(IFDEntryType::Byte),
            2 => Some(IFDEntryType::Ascii),
            3 => Some(IFDEntryType::Short),
            4 => Some(IFDEntryType::Long),
            5 => Some(IFDEntryType::Rational),
            6 => Some(IFDEntryType::Sbyte),
            7 => Some(IFDEntryType::Undefined),
            8 => Some(IFDEntryType::Sshort),
            9 => Some(IFDEntryType::Slong),
            10 => Some(IFDEntryType::Srational),
            11 => Some(IFDEntryType::Float),
            12 => Some(IFDEntryType::Double),
            13 => Some(IFDEntryType::Ifd),
            16 => Some(IFDEntryType::Long8),
            17 => Some(IFDEntryType::Slong8),
            18 => Some(IFDEntryType::Ifd8),
            _ => None,
        }
    }
}

/// An entry of an image file directory.
///
/// `value_offset` holds the bytes of the entry's value field as the file has them, the first
/// byte in the lowest place. They are the value itself where it fits, else where it stands.
#[derive(Clone, Copy, Debug, PartialEq, Eq, Structural)]
pub struct IfdEntry {
    pub entry_tag: u16,
    pub entry_type: u16,
    pub value_count: u64,
    pub value_offset: u64,
}

/// What an image file directory describes.
#[derive(Clone, Copy, Debug, PartialEq, Eq, Structural)]
pub enum IfdType {
    Page,
    Subfile,
    Exif,
    Gps,
}

/// An image file directory.
#[derive(Clone, Debug, PartialEq, Eq)]
pub struct ImageFileDirectory {
    pub offset: u64,
    pub entry_cnt: u64,
    pub ifd_type: IfdType,
    pub entries: HashMap<u16, IfdEntry>,
    pub next_ifd_offset: Option<u64>,
}

/// What an [`ImageFileDirectory`] holds.
#[verifier::ext_equal]
pub struct IfdModel {
    pub offset: u64,
    pub entry_cnt: u64,
    pub ifd_type: IfdType,
    pub entries: Map<u16, IfdEntry>,
    pub next_ifd_offset: Option<u64>,
}

impl View for ImageFileDirectory {
    type V = IfdModel;

    open spec fn view(&self) -> IfdModel {
        IfdModel {
            offset: self.offset,
            entry_cnt: self.entry_cnt,
            ifd_type: self.ifd_type,
            entries: self.entries@,
            next_ifd_offset: self.next_ifd_offset,
        }
    }
}

impl ImageFileDirectory {
    /// The entry for `tag_id`, if the directory has one.
    pub fn get_tag(&self, tag_id: u16) -> (r: Option<&IfdEntry>)
        ensures
            match r {
                Some(entry) => self@.entries.contains_key(tag_id) && self@.entries[tag_id]
                    == *entry,
                None => !self@.entries.contains_key(tag_id),
            },
    {
        self.entries.get(&tag_id)
    }

    /// The entry for `tag_id`, if the directory has one, open to change.
    pub fn get_tag_mut(&mut self, tag_id: u16) -> (r: Option<&mut IfdEntry>)
        ensures
            match r {
                Some(entry) => {
                    &&& old(self)@.entries.contains_key(tag_id)
                    &&& old(self)@.entries[tag_id] == *entry
                    &&& final(self)@ == (IfdModel {
                        entries: old(self)@.entries.insert(tag_id, *final(entry)),
                        ..old(self)@
                    })
                },
                None => !old(self)@.entries.contains_key(tag_id) && final(self)@ == old(self)@,
            },
    {
        match self.entries.entry(tag_id) {
            Entry::Occupied(entry) => Some(entry.into_mut()),
            Entry::Vacant(_) => None,
        }
    }
}

/// The width in bytes of a file offset, and of the value field of an entry.
pub open spec fn offset_width(big: bool) -> int {
    if big {
        8
    } else {
        4
    }
}

/// The width in bytes of the number of entries that a directory starts with.
pub open spec fn count_width(big: bool) -> int {
    if big {
        8
    } else {
        2
    }
}

/// Where entry `i` of the entries that start at `p` stands.
pub open spec fn entry_pos(p: int, i: int, big: bool) -> int {
    if big {
        p + 20 * i
    } else {
        p + 12 * i
    }
}

/// The integer of the width of an offset that is stored at `p`.
pub open spec fn word_at(e: Endianness, s: Seq<u8>, p: int, big: bool) -> int {
    if big {
        u64_at(e, s, p)
    } else {
        u32_at(e, s, p)
    }
}

/// The entry stored at `p`.
pub open spec fn entry_at(s: Seq<u8>, p: int, e: Endianness, big: bool) -> IfdEntry {
    IfdEntry {
        entry_tag: u16_at(e, s, p) as u16,
        entry_type: u16_at(e, s, p + 2) as u16,
        value_count: word_at(e, s, p + 4, big) as u64,
        value_offset: word_at(Endianness::Little, s, p + 4 + offset_width(big), big) as u64,
    }
}

/// `m` with the `n` entries stored from `p` added in turn: of two with one tag the later stays.
pub open spec fn with_entries_at(
    m: Map<u16, IfdEntry>,
    s: Seq<u8>,
    p: int,
    e: Endianness,
    big: bool,
    n: int,
) -> Map<u16, IfdEntry>
    decreases n,
{
    if n <= 0 {
        m
    } else {
        let entry = entry_at(s, entry_pos(p, n - 1, big), e, big);
        with_entries_at(m, s, p, e, big, n - 1).insert(entry.entry_tag, entry)
    }
}

/// The number of entries of the directory stored at `p`.
pub open spec fn entry_count_at(s: Seq<u8>, p: int, e: Endianness, big: bool) -> int {
    if big {
        u64_at(e, s, p)
    } else {
        u16_at(e, s, p)
    }
}

/// Where the directory stored at `p` ends.
pub open spec fn ifd_end(s: Seq<u8>, p: int, e: Endianness, big: bool) -> int {
    entry_pos(p + count_width(big), entry_count_at(s, p, e, big), big) + offset_width(big)
}

/// Whether the whole of the directory at `p` stands in the data.
pub open spec fn ifd_fits(s: Seq<u8>, p: int, e: Endianness, big: bool) -> bool {
    p + count_width(big) <= s.len() && ifd_end(s, p, e, big) <= s.len()
}

/// The directory stored at `p`.
pub open spec fn ifd_at(s: Seq<u8>, p: int, e: Endianness, big: bool, ty: IfdType) -> IfdModel {
    let n = entry_count_at(s, p, e, big);
    let next = word_at(e, s, entry_pos(p + count_width(big), n, big), big);
    IfdModel {
        offset: p as u64,
        entry_cnt: n as u64,
        ifd_type: ty,
        entries: with_entries_at(Map::empty(), s, p + count_width(big), e, big, n),
        next_ifd_offset: if next == 0 {
            None
        } else {
            Some(next as u64)
        },
    }
}

/// The directory stored at `p`, or the error where the data ends before it does.
pub open spec fn parse_ifd(s: Seq<u8>, p: int, e: Endianness, big: bool, ty: IfdType) -> Result<
    IfdModel,
    Error,
> {
    if ifd_fits(s, p, e, big) {
        Ok(ifd_at(s, p, e, big, ty))
    } else {
        Err(Error::IoError)
    }
}

/// What the header of a file says.
pub struct Header {
    pub byte_order: Endianness,
    pub big_tiff: bool,
    pub first_ifd_offset: u64,
}

pub open spec fn bad_header() -> Error {
    Error::InvalidAsset("Could not parse input image")
}

/// The byte order that the first two bytes of a file name.
pub open spec fn order_mark(s: Seq<u8>) -> Option<Endianness> {
    if s[0] == 0x49 && s[1] == 0x49 {
        Some(Endianness::Little)
    } else if s[0] == 0x4d && s[1] == 0x4d {
        Some(Endianness::Big)
    } else {
        None
    }
}

/// The header at the start of the data.
pub open spec fn parse_header(s: Seq<u8>) -> Result<Header, Error> {
    if s.len() < 2 {
        Err(Error::IoError)
    } else if order_mark(s) is None {
        Err(bad_header())
    } else {
        let e = order_mark(s)->0;
        if s.len() < 4 {
            Err(bad_header())
        } else if u16_at(e, s, 2) == 42 {
            if s.len() < 8 {
                Err(Error::IoError)
            } else {
                Ok(
                    Header {
                        byte_order: e,
                        big_tiff: false,
                        first_ifd_offset: u32_at(e, s, 4) as u64,
                    },
                )
            }
        } else if u16_at(e, s, 2) == 43 {
            if s.len() < 6 {
                Err(Error::IoError)
            } else if u16_at(e, s, 4) != 8 {
                Err(bad_header())
            } else if s.len() < 8 {
                Err(Error::IoError)
            } else if u16_at(e, s, 6) != 0 {
                Err(bad_header())
            } else if s.len() < 16 {
                Err(Error::IoError)
            } else {
                Ok(
                    Header {
                        byte_order: e,
                        big_tiff: true,
                        first_ifd_offset: u64_at(e, s, 8) as u64,
                    },
                )
            }
        } else {
            Err(bad_header())
        }
    }
}

/// The header of a TIFF file and its first directory.
pub struct TiffStructure {
    pub byte_order: Endianness,
    pub big_tiff: bool,
    pub first_ifd_offset: u64,
    pub first_ifd: Option<ImageFileDirectory>,
}

impl TiffStructure {
    /// Whether this is what `s` starts with.
    pub open spec fn is_structure_of(&self, s: Seq<u8>) -> bool {
        let header = Header {
            byte_order: self.byte_order,
            big_tiff: self.big_tiff,
            first_ifd_offset: self.first_ifd_offset,
        };
        &&& parse_header(s) == Ok::<Header, Error>(header)
        &&& self.first_ifd matches Some(ifd) && parse_ifd(
            s,
            self.first_ifd_offset as int,
            self.byte_order,
            self.big_tiff,
            IfdType::Page,
        ) == Ok::<IfdModel, Error>(ifd@)
    }

    /// Reads the header of a file and the directory that it points to.
    pub fn load(source: &[u8]) -> (r: Result<TiffStructure, Error>)
        ensures
            match r {
                Ok(ts) => ts.is_structure_of(source@),
                Err(err) => match parse_header(source@) {
                    Ok(h) => parse_ifd(
                        source@,
                        h.first_ifd_offset as int,
                        h.byte_order,
                        h.big_tiff,
                        IfdType::Page,
                    ) == Err::<IfdModel, Error>(err),
                    Err(header_err) => err == header_err,
                },
            },
    {
        if source.len() < 2 {
            return Err(Error::IoError);
        }
        let byte_order: Endianness = if source[0] == 0x49 && source[1] == 0x49 {
            Endianness::Little
        } else if source[0] == 0x4d && source[1] == 0x4d {
            Endianness::Big
        } else {
            return Err(Error::InvalidAsset("Could not parse input image"));
        };

        let magic: u16 = match read_u16(source, 2, byte_order) {
            Ok(magic) => magic,
            Err(_) => return Err(Error::InvalidAsset("Could not parse input image")),
        };
        let big_tiff: bool = if magic == 42 {
            false
        } else if magic == 43 {
            // byte size of offsets, must be 8
            if read_u16(source, 4, byte_order)? != 8 {
                return Err(Error::InvalidAsset("Could not parse input image"));
            }
            // must currently be 0

            if read_u16(source, 6, byte_order)? != 0 {
                return Err(Error::InvalidAsset("Could not parse input image"));
            }
            true
        } else {
            return Err(Error::InvalidAsset("Could not parse input image"));
        };

        let first_ifd_offset: u64 = if big_tiff {
            read_u64(source, 8, byte_order)?
        } else {
            read_u32(source, 4, byte_order)? as u64
        };

        let first_ifd = TiffStructure::read_ifd(
            source,
            first_ifd_offset,
            byte_order,
            big_tiff,
            IfdType::Page,
        )?;
        Ok(TiffStructure { byte_order, big_tiff, first_ifd_offset, first_ifd: Some(first_ifd) })
    }

    /// Adds the `entry_cnt` entries stored from `pos` to `entries`; returns where they end.
    pub fn read_ifd_entries(
        source: &[u8],
        pos: u64,
        byte_order: Endianness,
        big_tiff: bool,
        entry_cnt: u64,
        entries: &mut HashMap<u16, IfdEntry>,
    ) -> (r: Result<u64, Error>)
        ensures
            match r {
                Ok(end) => {
                    &&& end == entry_pos(pos as int, entry_cnt as int, big_tiff)
                    &&& entry_cnt == 0 || end <= source@.len()
                    &&& final(entries)@ == with_entries_at(
                        old(entries)@,
                        source@,
                        pos as int,
                        byte_order,
                        big_tiff,
                        entry_cnt as int,
                    )
                },
                Err(err) => {
                    &&& err == Error::IoError
                    &&& entry_cnt > 0
                    &&& entry_pos(pos as int, entry_cnt as int, big_tiff) > source@.len()
                    &&& exists|n: int|
                        0 <= n < entry_cnt && final(entries)@ == #[trigger] with_entries_at(
                            old(entries)@,
                            source@,
                            pos as int,
                            byte_order,
                            big_tiff,
                            n,
                        )
                },
            },
    {
        let mut p: u64 = pos;
        let mut i: u64 = 0;
        while i < entry_cnt
            invariant
                i <= entry_cnt,
                p == entry_pos(pos as int, i as int, big_tiff),
                i == 0 || p <= source@.len(),
                entries@ == with_entries_at(
                    old(entries)@,
                    source@,
                    pos as int,
                    byte_order,
                    big_tiff,
                    i as int,
                ),
            decreases entry_cnt - i,
        {
            match TiffStructure::read_ifd_entry(source, p, byte_order, big_tiff) {
                Ok(entry) => {
                    entries.insert(entry.entry_tag, entry);
                    p = if big_tiff {
                        p + 20
                    } else {
                        p + 12
                    };
                    i = i + 1;
                },
                Err(err) => return Err(err),
            }
        }
        Ok(p)
    }

    /// Reads the entry stored at `pos`.
    fn read_ifd_entry(source: &[u8], pos: u64, byte_order: Endianness, big_tiff: bool) -> (r:
        Result<IfdEntry, Error>)
        ensures
            match r {
                Ok(entry) => {
                    &&& entry_pos(pos as int, 1, big_tiff) <= source@.len() <= usize::MAX
                    &&& entry == entry_at(source@, pos as int, byte_order, big_tiff)
                },
                Err(err) => {
                    &&& err == Error::IoError
                    &&& entry_pos(pos as int, 1, big_tiff) > source@.len()
                },
            },
    {
        let width: u64 = if big_tiff {
            20
        } else {
            12
        };
        if !crate::endian::in_range(source, pos, width) {
            return Err(Error::IoError);
        }
        assert(source.len() == source@.len());
        let entry_tag: u16 = read_u16(source, pos, byte_order)?;
        let entry_type: u16 = read_u16(source, pos + 2, byte_order)?;
        let (value_count, value_offset): (u64, u64) = if big_tiff {
            (
                read_u64(source, pos + 4, byte_order)?,
                read_u64(source, pos + 12, Endianness::Little)?,
            )
        } else {
            (
                read_u32(source, pos + 4, byte_order)? as u64,
                read_u32(source, pos + 8, Endianness::Little)? as u64,
            )
        };
        Ok(IfdEntry { entry_tag, entry_type, value_count, value_offset })
    }

    /// Reads the directory stored at `offset`.
    pub fn read_ifd(
        source: &[u8],
        offset: u64,
        byte_order: Endianness,
        big_tiff: bool,
        ifd_type: IfdType,
    ) -> (r: Result<ImageFileDirectory, Error>)
        ensures
            match r {
                Ok(ifd) => parse_ifd(source@, offset as int, byte_order, big_tiff, ifd_type)
                    == Ok::<IfdModel, Error>(ifd@),
                Err(err) => parse_ifd(source@, offset as int, byte_order, big_tiff, ifd_type)
                    == Err::<IfdModel, Error>(err),
            },
    {
        let (entry_cnt, start): (u64, u64) = if big_tiff {
            let n: u64 = read_u64(source, offset, byte_order)?;
            assert(source.len() == source@.len());
            (n, offset + 8)
        } else {
            let n: u16 = read_u16(source, offset, byte_order)?;
            assert(source.len() == source@.len());
            (n as u64, offset + 2)
        };
        let mut entries: HashMap<u16, IfdEntry> = HashMap::new();
        let end: u64 = TiffStructure::read_ifd_entries(
            source,
            start,
            byte_order,
            big_tiff,
            entry_cnt,
            &mut entries,
        )?;
        let next_ifd: u64 = if big_tiff {
            read_u64(source, end, byte_order)?
        } else {
            read_u32(source, end, byte_order)? as u64
        };
        let next_ifd_offset: Option<u64> = if next_ifd == 0 {
            None
        } else {
            Some(next_ifd)
        };
        Ok(ImageFileDirectory { offset, entry_cnt, ifd_type, entries, next_ifd_offset })
    }
}

/// The offset that the value field of an entry holds.
pub open spec fn decoded_offset(value_offset: u64, e: Endianness, big: bool) -> int {
    word_at(e, value_field(value_offset), 0, big)
}

/// The bytes of the value field of an entry, padded to the width that BigTIFF gives it.
pub open spec fn value_field(value_offset: u64) -> Seq<u8> {
    u64_bytes(Endianness::Little, value_offset as int)
}

/// The bytes of the value field of an entry.
pub fn value_field_bytes(value_offset: u64) -> (r: Vec<u8>)
    ensures
        r@ == value_field(value_offset),
        r@.len() == 8,
{
    let mut bytes: Vec<u8> = Vec::new();
    crate::endian::put_u64(&mut bytes, value_offset, Endianness::Little);
    proof {
        assert(bytes@ =~= value_field(value_offset));
    }
    bytes
}

/// The offset that the value field of an entry holds, which is stored in the file's byte order.
pub fn decode_offset(offset_file_native: u64, endianness: Endianness, big_tiff: bool) -> (r: Result<
    u64,
    Error,
>)
    ensures
        r matches Ok(offset) && offset == decoded_offset(offset_file_native, endianness, big_tiff),
{
    let bytes = value_field_bytes(offset_file_native);
    if big_tiff {
        read_u64(bytes.as_slice(), 0, endianness)
    } else {
        Ok(read_u32(bytes.as_slice(), 0, endianness)? as u64)
    }
}

} // verus!
