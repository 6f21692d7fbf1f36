use c2pa_assets::asset::{HashBlockObjectType, RemoteRefEmbedType};
use c2pa_assets::endian::Endianness;
use c2pa_assets::error::Error;
use c2pa_assets::tiff::directory::{
    decode_offset, IFDEntryType, IfdType, ImageFileDirectory, TiffStructure, C2PA_TAG,
};
use c2pa_assets::tiff::io::{tiff_clone_with_tags, TiffIO};
use c2pa_assets::tiff::layout::IfdClonedEntry;
use c2pa_assets::tiff::map::map_tiff;

#[test]
fn test_overflow_clone_ifd_entries() {
    // a BigTIFF file whose entries for tag 0 hold 2^63 + 3 LONGs
    let mut data: Vec<u8> = vec![0; 190];
    for (at, byte) in [
        (0, 0x49),
        (1, 0x49),
        (2, 0x2b),
        (4, 0x08),
        (8, 0x31),
        (27, 0x49),
        (28, 0x49),
        (29, 0x2a),
        (31, 0x04),
        (36, 0x04),
        (40, 0xf9),
        (45, 0x05),
        (47, 0x07),
        (49, 0x03),
        (79, 0x04),
        (81, 0x03),
        (88, 0x80),
        (99, 0x04),
        (101, 0x03),
        (108, 0x80),
    ] {
        data[at] = byte;
    }

    let tiff_io = TiffIO {};

    let locations = tiff_io.get_object_locations_from_stream(&data);
    assert!(matches!(locations, Err(Error::InvalidAsset(_))));
}

/// Writes a file part by part.
struct Writer {
    order: Endianness,
    big: bool,
    data: Vec<u8>,
}

/// A tag, its type, the number of its values, and the values.
type Entry = (u16, u16, u64, Vec<u8>);

impl Writer {
    fn new(order: Endianness, big: bool) -> Writer {
        let mut w = Writer { order, big, data: Vec::new() };
        let mark = match order {
            Endianness::Little => b'I',
            Endianness::Big => b'M',
        };
        w.data.extend([mark, mark]);
        if big {
            for v in [43, 8, 0] {
                let number = w.number(v, 2);
                w.data.extend(number);
            }
        } else {
            let number = w.number(42, 2);
            w.data.extend(number);
        }
        let slot = w.word(0);
        w.data.extend(slot);
        w
    }

    fn number(&self, v: u64, width: usize) -> Vec<u8> {
        match self.order {
            Endianness::Little => v.to_le_bytes()[..width].to_vec(),
            Endianness::Big => v.to_be_bytes()[8 - width..].to_vec(),
        }
    }

    fn word(&self, v: u64) -> Vec<u8> {
        self.number(v, if self.big { 8 } else { 4 })
    }

    fn long(&self, v: u64) -> Vec<u8> {
        self.number(v, 4)
    }

    /// Appends data; returns where it is.
    fn append(&mut self, bytes: &[u8]) -> u64 {
        let at = self.data.len() as u64;
        self.data.extend_from_slice(bytes);
        at
    }

    /// Appends a directory, behind the values that do not fit it; returns where it is.
    fn directory(&mut self, entries: Vec<Entry>) -> u64 {
        let width = if self.big { 8 } else { 4 };
        let mut table = self.number(entries.len() as u64, if self.big { 8 } else { 2 });
        for (tag, ty, count, mut value) in entries {
            if value.len() > width {
                let at = self.append(&value);
                value = self.word(at);
            }
            value.resize(width, 0);
            table.extend(self.number(tag as u64, 2));
            table.extend(self.number(ty as u64, 2));
            table.extend(self.word(count));
            table.extend(value);
        }
        table.extend(self.word(0));
        self.append(&table)
    }

    /// The file with the page at the given place.
    fn finish(mut self, page: u64) -> Vec<u8> {
        let slot = if self.big { 8 } else { 4 };
        let word = self.word(page);
        self.data.splice(slot..slot + word.len(), word);
        self.data
    }
}

const STRIP: &[u8] = b"pixels of the one strip";

const COMMENT: &[u8] = b"a comment in the EXIF directory";

const DESCRIPTION: &[u8] = b"a description of the image\0";

/// A file with one strip, a description and an EXIF directory, and more tags if there are any.
fn sample(order: Endianness, big: bool, more: Vec<Entry>) -> Vec<u8> {
    let mut w = Writer::new(order, big);
    let strip = w.append(STRIP);
    let exif = w.directory(vec![(0x9286, 7, COMMENT.len() as u64, COMMENT.to_vec())]);
    let mut entries = vec![
        (256, 3, 1, w.number(23, 2)),
        (270, 2, DESCRIPTION.len() as u64, DESCRIPTION.to_vec()),
        (273, 4, 1, w.long(strip)),
        (279, 4, 1, w.long(STRIP.len() as u64)),
        (0x8769, 4, 1, w.word(exif)),
    ];
    entries.extend(more);
    let page = w.directory(entries);
    w.finish(page)
}

const LAYOUTS: [(Endianness, bool); 4] = [
    (Endianness::Little, false),
    (Endianness::Big, false),
    (Endianness::Little, true),
    (Endianness::Big, true),
];

/// The bytes that an entry that does not fit its value refers to.
fn value(data: &[u8], ts: &TiffStructure, ifd: &ImageFileDirectory, tag: u16) -> Vec<u8> {
    let entry = ifd.get_tag(tag).unwrap();
    let at = decode_offset(entry.value_offset, ts.byte_order, ts.big_tiff).unwrap() as usize;
    data[at..at + entry.value_count as usize].to_vec()
}

/// The directory that a tag of the page points to.
fn child(data: &[u8], ts: &TiffStructure, tag: u16, ty: IfdType) -> ImageFileDirectory {
    let entry = ts.first_ifd.as_ref().unwrap().get_tag(tag).unwrap();
    let at = decode_offset(entry.value_offset, ts.byte_order, ts.big_tiff).unwrap();
    TiffStructure::read_ifd(data, at, ts.byte_order, ts.big_tiff, ty).unwrap()
}

#[test]
fn stores_are_read_back() {
    let tiff_io = TiffIO {};
    for (order, big) in LAYOUTS {
        let source = sample(order, big, Vec::new());
        assert_eq!(tiff_io.read_cai(&source), Err(Error::JumbfNotFound));
        let out = tiff_io.write_cai(&source, b"some data").unwrap();
        assert_eq!(tiff_io.read_cai(&out).unwrap(), b"some data");
        // a store takes the place of the one before
        let again = tiff_io.write_cai(&out, b"a longer manifest store").unwrap();
        assert_eq!(tiff_io.read_cai(&again).unwrap(), b"a longer manifest store");
    }
}

#[test]
fn short_stores_stay_in_their_entry() {
    let tiff_io = TiffIO {};
    let source = sample(Endianness::Little, false, Vec::new());
    let out = tiff_io.write_cai(&source, b"abcd").unwrap();
    let ts = TiffStructure::load(&out).unwrap();
    let entry = ts.first_ifd.as_ref().unwrap().get_tag(C2PA_TAG).unwrap();
    assert_eq!(entry.value_count, 4);
    assert_eq!(entry.value_offset, u64::from(u32::from_le_bytes(*b"abcd")));
}

#[test]
fn stores_are_located() {
    let tiff_io = TiffIO {};
    for (order, big) in LAYOUTS {
        let source = sample(order, big, Vec::new());
        let out = tiff_io.write_cai(&source, b"some data").unwrap();
        let positions = tiff_io.get_object_locations_from_stream(&out).unwrap();
        assert_eq!(positions.len(), 1);
        assert_eq!(positions[0].htype, HashBlockObjectType::Cai);
        let at = positions[0].offset;
        assert_eq!(positions[0].length, 9);
        assert_eq!(&out[at..at + 9], b"some data");
        // without a store, where one would be
        let positions = tiff_io.get_object_locations_from_stream(&source).unwrap();
        assert_eq!(positions.len(), 1);
    }
}

#[test]
fn stores_are_patched() {
    let tiff_io = TiffIO {};
    for (order, big) in LAYOUTS {
        let source = sample(order, big, Vec::new());
        let mut out = tiff_io.write_cai(&source, b"some data").unwrap();
        let at = tiff_io.patch_cai_store(&out, b"new data!").unwrap() as usize;
        out[at..at + 9].copy_from_slice(b"new data!");
        assert_eq!(tiff_io.read_cai(&out).unwrap(), b"new data!");
        assert_eq!(
            tiff_io.patch_cai_store(&out, b"too long a store"),
            Err(Error::InvalidAsset("patch_cai_store store size mismatch."))
        );
        assert_eq!(tiff_io.patch_cai_store(&source, b"new data!"), Err(Error::JumbfNotFound));
    }
}

#[test]
fn removed_stores_are_gone() {
    let tiff_io = TiffIO {};
    for (order, big) in LAYOUTS {
        let source = sample(order, big, Vec::new());
        let out = tiff_io.write_cai(&source, b"some data").unwrap();
        let removed = tiff_io.remove_cai_store_from_stream(&out).unwrap();
        assert_eq!(tiff_io.read_cai(&removed), Err(Error::JumbfNotFound));
        let ts = TiffStructure::load(&removed).unwrap();
        assert_eq!(value(&removed, &ts, ts.first_ifd.as_ref().unwrap(), 270), DESCRIPTION);
    }
}

/// The tags of the page, in order.
fn tags(data: &[u8]) -> Vec<u16> {
    let page = TiffStructure::load(data).unwrap().first_ifd.unwrap();
    let mut all: Vec<u16> = page.entries.keys().copied().collect();
    all.sort();
    all
}

#[test]
fn removal_takes_one_tag() {
    let tiff_io = TiffIO {};
    for (order, big) in LAYOUTS {
        let source = sample(order, big, Vec::new());
        let all = [256, 270, 273, 279, 0x8769];
        assert_eq!(tags(&source), all);
        // without a store too
        let removed = tiff_io.remove_cai_store_from_stream(&source).unwrap();
        assert_eq!(tags(&removed), all);
        let with_store = tiff_io.write_cai(&source, b"some data").unwrap();
        assert_eq!(tags(&with_store), [256, 270, 273, 279, 0x8769, C2PA_TAG]);
        let once = tiff_io.remove_cai_store_from_stream(&with_store).unwrap();
        assert_eq!(tags(&once), all);
        let twice = tiff_io.remove_cai_store_from_stream(&once).unwrap();
        assert_eq!(twice, once);
    }
}

#[test]
fn clones_have_the_added_tags() {
    for (order, big) in LAYOUTS {
        let source = sample(order, big, Vec::new());
        let entry = |tag: u16, bytes: &[u8]| IfdClonedEntry {
            entry_tag: tag,
            entry_type: 7,
            value_count: bytes.len() as u64,
            value_bytes: bytes.to_vec(),
        };
        let added = vec![
            entry(270, b"another description"),
            entry(300, b"replaced by the next"),
            entry(300, b"an added value"),
        ];
        let out = tiff_clone_with_tags(&source, added).unwrap();
        assert_eq!(tags(&out), [256, 270, 273, 279, 300, 0x8769]);
        let ts = TiffStructure::load(&out).unwrap();
        assert_eq!((ts.byte_order, ts.big_tiff), (order, big));
        let page = ts.first_ifd.as_ref().unwrap();
        assert_eq!(page.next_ifd_offset, None);
        assert_eq!(page.get_tag(270).unwrap().entry_type, 7);
        assert_eq!(value(&out, &ts, page, 270), b"another description");
        assert_eq!(value(&out, &ts, page, 300), b"an added value");
        let width = page.get_tag(256).unwrap();
        assert_eq!((width.entry_type, width.value_count), (3, 1));
    }
}

#[test]
fn mismatched_counts_are_refused() {
    let tiff_io = TiffIO {};
    for (offsets, counts, message) in [
        (273, 279, "TIFF strip count does not match strip offset count"),
        (324, 325, "TIFF tile count does not match tile offset count"),
    ] {
        let mut w = Writer::new(Endianness::Little, false);
        let two = [w.long(1), w.long(2)].concat();
        let page = w.directory(vec![(offsets, 4, 1, w.long(8)), (counts, 4, 2, two)]);
        let source = w.finish(page);
        assert_eq!(
            tiff_io.write_cai(&source, b"some data"),
            Err(Error::InvalidAsset(message))
        );
    }
}

#[test]
fn xmp_is_read_back() {
    let tiff_io = TiffIO {};
    for (order, big) in LAYOUTS {
        let source = sample(order, big, Vec::new());
        assert_eq!(tiff_io.read_xmp(&source), None);
        let out = tiff_io.embed_xmp_to_stream(&source, "<xmp>data</xmp>").unwrap();
        assert_eq!(tiff_io.read_xmp(&out).unwrap(), "<xmp>data</xmp>");
    }
}

#[test]
fn xmp_that_is_no_text_is_not_read() {
    let tiff_io = TiffIO {};
    let bytes = b"\xff\xfe not UTF-8".to_vec();
    let source = sample(Endianness::Little, false, vec![(0x2bc, 1, bytes.len() as u64, bytes)]);
    assert_eq!(tiff_io.read_xmp(&source), None);
}

#[test]
fn other_values_are_kept() {
    let tiff_io = TiffIO {};
    for (order, big) in LAYOUTS {
        let source = sample(order, big, Vec::new());
        let out = tiff_io.write_cai(&source, b"some data").unwrap();
        let ts = TiffStructure::load(&out).unwrap();
        assert_eq!((ts.byte_order, ts.big_tiff), (order, big));
        let page = ts.first_ifd.as_ref().unwrap();
        assert_eq!(value(&out, &ts, page, 270), DESCRIPTION);
        assert_eq!(page.get_tag(270).unwrap().entry_type, 2);
        let width = page.get_tag(256).unwrap();
        assert_eq!((width.entry_type, width.value_count), (3, 1));
        let exif = child(&out, &ts, 0x8769, IfdType::Exif);
        assert_eq!(value(&out, &ts, &exif, 0x9286), COMMENT);
    }
}

#[test]
fn image_data_is_kept() {
    let tiff_io = TiffIO {};
    for (order, big) in LAYOUTS {
        let source = sample(order, big, Vec::new());
        let out = tiff_io.write_cai(&source, b"some data").unwrap();
        let ts = TiffStructure::load(&out).unwrap();
        let entry = ts.first_ifd.as_ref().unwrap().get_tag(273).unwrap();
        let field = entry.value_offset.to_le_bytes();
        let four = [field[0], field[1], field[2], field[3]];
        let at = match order {
            Endianness::Little => u32::from_le_bytes(four),
            Endianness::Big => u32::from_be_bytes(four),
        } as usize;
        assert_eq!(&out[at..at + STRIP.len()], STRIP);
    }
}

#[test]
fn subfiles_and_tiles_are_kept() {
    let tiff_io = TiffIO {};
    for order in [Endianness::Little, Endianness::Big] {
        let mut w = Writer::new(order, false);
        let tiles = [w.append(b"first tile"), w.append(b"second tile!")];
        let mut offsets = w.long(tiles[0]);
        offsets.extend(w.long(tiles[1]));
        let mut counts = w.long(10);
        counts.extend(w.long(12));
        let subfile = w.directory(vec![(324, 4, 2, offsets), (325, 4, 2, counts)]);
        let other = w.directory(vec![(270, 2, DESCRIPTION.len() as u64, DESCRIPTION.to_vec())]);
        let mut list = w.long(subfile);
        list.extend(w.long(other));
        let page = w.directory(vec![(0x14a, 4, 2, list)]);
        let source = w.finish(page);

        let out = tiff_io.write_cai(&source, b"some data").unwrap();
        assert_eq!(tiff_io.read_cai(&out).unwrap(), b"some data");
        let (tree, root, e, big) = map_tiff(&out).unwrap();
        assert_eq!((e, big), (order, false));
        let children: Vec<&ImageFileDirectory> =
            root.children(&tree).map(|node| &node.data).collect();
        assert_eq!(children.len(), 2);
        // and nothing hangs off these
        assert!(root.children_tokens(&tree).all(|token| token.children(&tree).next().is_none()));
        let ts = TiffStructure::load(&out).unwrap();
        assert_eq!(value(&out, &ts, children[1], 270), DESCRIPTION);
        let entry = children[0].get_tag(324).unwrap();
        let at = decode_offset(entry.value_offset, e, big).unwrap() as usize;
        let place = |i: usize| {
            let b = [out[at + 4 * i], out[at + 4 * i + 1], out[at + 4 * i + 2], out[at + 4 * i + 3]];
            match order {
                Endianness::Little => u32::from_le_bytes(b) as usize,
                Endianness::Big => u32::from_be_bytes(b) as usize,
            }
        };
        assert_eq!(&out[place(0)..place(0) + 10], b"first tile");
        assert_eq!(&out[place(1)..place(1) + 12], b"second tile!");
    }
}

#[test]
fn subfiles_of_big_tiff_files() {
    // one of them is found again in a little-endian file, where its place fits 32 bits
    let tiff_io = TiffIO {};
    let mut w = Writer::new(Endianness::Little, true);
    let subfile =
        w.directory(vec![(270, 2, DESCRIPTION.len() as u64, DESCRIPTION.to_vec())]);
    let list = w.long(subfile);
    let page = w.directory(vec![(0x14a, 4, 1, list)]);
    let source = w.finish(page);
    let out = tiff_io.write_cai(&source, b"some data").unwrap();
    assert_eq!(tiff_io.read_cai(&out).unwrap(), b"some data");
}

#[test]
fn malformed_files_are_refused() {
    let tiff_io = TiffIO {};
    let bad_header = Err(Error::InvalidAsset("Could not parse input image"));
    assert_eq!(tiff_io.read_cai(b"not a TIFF file"), bad_header);
    let sound = sample(Endianness::Little, false, Vec::new());
    // neither classic TIFF nor BigTIFF
    let mut other = sound.clone();
    other[2] = 41;
    assert!(matches!(tiff_io.read_cai(&other), Err(Error::InvalidAsset(_))));
    // no directory where the header points
    let mut astray = sound.clone();
    astray[4..8].copy_from_slice(&0xffff_fff0u32.to_le_bytes());
    assert_eq!(tiff_io.read_cai(&astray), Err(Error::IoError));
    assert!(tiff_io.write_cai(&astray, b"some data").is_err());
    assert!(tiff_io.remove_cai_store_from_stream(&astray).is_err());
    // the strip lies outside of the file
    let mut short = Writer::new(Endianness::Little, false);
    let entries = vec![(273, 4, 1, short.long(1000)), (279, 4, 1, short.long(10))];
    let page = short.directory(entries);
    let source = short.finish(page);
    assert_eq!(
        tiff_io.write_cai(&source, b"some data"),
        Err(Error::BadParam("read past end of stream"))
    );
    // more offsets than counts
    let mut uneven = Writer::new(Endianness::Little, false);
    let mut offsets = uneven.long(0);
    offsets.extend(uneven.long(0));
    let page = uneven.directory(vec![(273, 4, 2, offsets), (279, 4, 1, uneven.long(0))]);
    let source = uneven.finish(page);
    assert_eq!(
        tiff_io.write_cai(&source, b"some data"),
        Err(Error::InvalidAsset("TIFF strip count does not match strip offset count"))
    );
    // an entry of a type that there is none of
    let source = sample(Endianness::Little, false, vec![(9999, 99, 1, vec![0; 4])]);
    assert_eq!(tiff_io.write_cai(&source, b"some data"), Err(Error::UnsupportedType));
    // a manifest store of another type
    let source = sample(Endianness::Little, false, vec![(0xcd41, 2, 9, b"some data".to_vec())]);
    assert_eq!(
        tiff_io.read_cai(&source),
        Err(Error::InvalidAsset("Ifd entry for C2PA must be type UNDEFINED(7)"))
    );
}

#[test]
fn references_are_embedded_as_xmp() {
    let tiff_io = TiffIO {};
    let add = |xmp: String, uri: String| Ok(format!("{xmp} and {uri}"));
    let source = sample(Endianness::Big, false, Vec::new());
    let uri = || RemoteRefEmbedType::Xmp("https://test/ref".to_string());
    // the minimal XMP is the base where there is none
    let out = tiff_io.embed_reference_to_stream(&source, uri(), "minimal", add).unwrap();
    assert_eq!(tiff_io.read_xmp(&out).unwrap(), "minimal and https://test/ref");
    // else the file's own
    let again = tiff_io.embed_reference_to_stream(&out, uri(), "minimal", add).unwrap();
    assert_eq!(
        tiff_io.read_xmp(&again).unwrap(),
        "minimal and https://test/ref and https://test/ref"
    );
    let fails = |_: String, _: String| Err(Error::NotFound);
    assert_eq!(
        tiff_io.embed_reference_to_stream(&source, uri(), "minimal", fails),
        Err(Error::NotFound)
    );
    for other in [
        RemoteRefEmbedType::StegoS("s".to_string()),
        RemoteRefEmbedType::StegoB(vec![1]),
        RemoteRefEmbedType::Watermark("w".to_string()),
    ] {
        assert_eq!(
            tiff_io.embed_reference_to_stream(&source, other, "minimal", add),
            Err(Error::UnsupportedType)
        );
    }
}

#[test]
fn types_of_files() {
    let tiff_io = TiffIO::new("tif");
    assert_eq!(tiff_io.supported_types().len(), 10);
    assert!(tiff_io.supported_types().contains(&"image/x-nikon-nef"));
    assert!(tiff_io.get_writer("image/dng").is_some());
    // raw files are read only
    assert!(tiff_io.get_writer("nef").is_none());
    assert_eq!(tiff_io.compose_manifest(b"block", "tif").unwrap(), b"block");
}

#[test]
fn types_of_entries() {
    assert_eq!(IFDEntryType::from_u16(1), Some(IFDEntryType::Byte));
    assert_eq!(IFDEntryType::from_u16(7), Some(IFDEntryType::Undefined));
    assert_eq!(IFDEntryType::from_u16(18), Some(IFDEntryType::Ifd8));
    for unknown in [0, 14, 15, 19, 0xffff] {
        assert_eq!(IFDEntryType::from_u16(unknown), None);
    }
}

#[test]
fn tags_of_directories() {
    let source = sample(Endianness::Little, false, Vec::new());
    let ts = TiffStructure::load(&source).unwrap();
    let mut page = ts.first_ifd.unwrap();
    assert!(page.get_tag(271).is_none());
    assert!(page.get_tag_mut(271).is_none());
    page.get_tag_mut(256).unwrap().value_count = 2;
    assert_eq!(page.get_tag(256).unwrap().value_count, 2);
    assert_eq!(page.get_tag(256).unwrap().value_offset, 23);
}
