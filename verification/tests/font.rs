use c2pa_assets::asset::{HashBlockObjectType, HashObjectPositions, RemoteRefEmbedType};
use c2pa_assets::error::Error;
use c2pa_assets::font::chunks::{BoxMap, Chunk};
use c2pa_assets::font::error::FontError;
use c2pa_assets::font::otf;
use c2pa_assets::font::otf::{FontVersion, OtfIO, TableChange};
use c2pa_assets::font::sfnt;
use c2pa_assets::font::sfnt::{FieldUpdate, RecordUpdate, SfntIO, TaggedTable};
use c2pa_assets::font::table::{C2paTable, FontTable};
use c2pa_assets::font::thumbnail::{
    is_font_mime_type, is_supported_font_file, make_thumbnail_from_stream, thumbnail_format,
    ThumbnailError, ThumbnailFormat,
};
use c2pa_assets::font::woff::WoffIO;
use c2pa_assets::font::xmp::{
    build_xmp_from_stream, default_document_id, default_font_xmp_meta, default_instance_id,
    identifier_or_fresh,
};

/// Test to ensure that the font file is a supported type
#[test]
fn test_is_supported_font_file() {
    assert!(is_supported_font_file("ttf"));
    assert!(is_supported_font_file("TTF"));
    assert!(is_supported_font_file("otf"));
    assert!(is_supported_font_file("OTF"));
    assert!(!is_supported_font_file("woff"));
}

/// Test to ensure that the font mime type is a valid supported type
#[test]
fn test_is_font_mime_type() {
    assert!(is_font_mime_type("application/font-sfnt"));
    assert!(is_font_mime_type("application/x-font-ttf"));
    assert!(is_font_mime_type("application/x-font-opentype"));
    assert!(is_font_mime_type("application/x-font-truetype"));
    assert!(is_font_mime_type("font/otf"));
    assert!(is_font_mime_type("font/sfnt"));
    assert!(is_font_mime_type("font/ttf"));
    assert!(is_font_mime_type("otf"));
    assert!(is_font_mime_type("sfnt"));
    assert!(is_font_mime_type("ttf"));
    assert!(!is_font_mime_type("woff"));
}

// OpenType fonts.

/// An OpenType font with the given number of tables, and the entries of the table directory: the
/// tag, and where the table is.
fn font(tables: u16, entries: &[(&[u8; 4], u32, u32)], data: &[u8]) -> Vec<u8> {
    let mut font = b"OTTO".to_vec();
    font.extend(tables.to_be_bytes());
    font.extend([0; 6]);
    for (tag, offset, length) in entries {
        font.extend(*tag);
        font.extend([0; 4]);
        font.extend(offset.to_be_bytes());
        font.extend(length.to_be_bytes());
    }
    font.extend(data);
    font
}

fn range(offset: usize, length: usize) -> HashObjectPositions {
    HashObjectPositions { offset, length, htype: HashBlockObjectType::Cai }
}

#[test]
fn get_object_locations_without_any_tables() {
    let font_data = b"OTTO\x00\x00";
    let positions = otf::get_object_locations_from_stream(font_data).unwrap();
    // Should have one position reported for the entire "file"
    assert_eq!(1, positions.len());
    assert_eq!(0, positions.get(0).unwrap().offset);
    assert_eq!(6, positions.get(0).unwrap().length);
}

#[test]
fn get_object_locations_without_c2pa_table() {
    let font_data = font(1, &[(b"C2PB", 0x1c, 1)], &[0]);
    let positions = otf::get_object_locations_from_stream(&font_data).unwrap();
    // Should have one position reported for the entire "file"
    assert_eq!(1, positions.len());
    assert_eq!(0, positions.get(0).unwrap().offset);
    assert_eq!(29, positions.get(0).unwrap().length);
}

#[test]
fn get_object_locations_with_table() {
    // a table of version 0.1 with a reference and no manifest store
    let mut table = vec![0, 0, 0, 1, 0, 0, 0, 0x12, 0, 8];
    table.extend([0; 8]);
    table.extend(b"file://a");
    let font_data = font(1, &[(b"C2PA", 0x1c, 0x1a)], &table);
    let positions = otf::get_object_locations_from_stream(&font_data).unwrap();
    // Should have 2 positions reported
    assert_eq!(2, positions.len());
    // The first one is the position to the table header entry which describes where
    // the C2PA table is
    assert_eq!(16, positions.get(0).unwrap().length);
    assert_eq!(12, positions.get(0).unwrap().offset);
    // The second one is the position of the actual C2PA table
    assert_eq!(26, positions.get(1).unwrap().length);
    assert_eq!(28, positions.get(1).unwrap().offset);
}

#[test]
fn entries_of_the_table_directory() {
    let entry = |tag: &'static [u8; 4], at: u32| (tag, at, 4);
    // the first of two counts
    let twice = font(3, &[entry(b"head", 1), entry(b"C2PA", 2), entry(b"C2PA", 3)], &[]);
    assert_eq!(
        otf::get_object_locations_from_stream(&twice).unwrap(),
        [range(28, 16), range(2, 4)]
    );
    // what the font does not count as a table is not looked at, but for the first entry
    let uncounted = font(1, &[entry(b"head", 1), entry(b"C2PA", 2)], &[]);
    assert_eq!(
        otf::get_object_locations_from_stream(&uncounted).unwrap(),
        [range(0, 44)]
    );
    let none = font(0, &[entry(b"C2PA", 2)], &[]);
    assert_eq!(
        otf::get_object_locations_from_stream(&none).unwrap(),
        [range(12, 16), range(2, 4)]
    );
    // an entry that is cut off is none
    let cut = font(1, &[entry(b"C2PA", 2)], &[]);
    assert_eq!(
        otf::get_object_locations_from_stream(&cut[..27]).unwrap(),
        [range(0, 27)]
    );
}

#[test]
fn fonts_start_with_their_version() {
    assert_eq!(FontVersion::try_from(0x00010000), Ok(FontVersion::TrueType));
    assert_eq!(FontVersion::try_from(0x4f54544f), Ok(FontVersion::OpenType));
    assert_eq!(FontVersion::try_from(0x74797031), Ok(FontVersion::Typ1));
    assert_eq!(FontVersion::try_from(0x74727565), Ok(FontVersion::AppleTrue));
    assert_eq!(FontVersion::try_from(0), Err(()));
    assert_eq!(
        otf::get_object_locations_from_stream(b"wOFF\x00\x00"),
        Err(Error::UnsupportedFontError)
    );
    assert_eq!(otf::get_object_locations_from_stream(b"OTT"), Err(Error::IoError));
    assert_eq!(otf::get_object_locations_from_stream(b"OTTO\x00"), Err(Error::IoError));
}

fn table(uri: Option<&str>, store: Option<&[u8]>) -> C2paTable {
    C2paTable {
        active_manifest_uri: uri.map(|uri| uri.to_string()),
        manifest_store: store.map(|store| store.to_vec()),
    }
}

#[test]
fn otf_io_reads_c2pa_table_from_stream() {
    let font = FontTable::Present(table(Some("file://a"), Some(b"test-data")));
    let c2pa_data = otf::read_c2pa_from_stream(font).unwrap();
    // Verify the active manifest uri
    assert_eq!(Some("file://a".to_string()), c2pa_data.active_manifest_uri);
    // Verify the embedded C2PA data as well
    assert_eq!(Some(b"test-data".to_vec()), c2pa_data.manifest_store);
}

#[test]
fn otf_tables_change() {
    let otf_io = OtfIO::new("otf");
    // a reference, and then a store
    let uri = RemoteRefEmbedType::Xmp("https://test/ref".to_string());
    let referring = otf_io.embed_reference_to_stream(FontTable::Absent, uri).unwrap();
    assert_eq!(referring, table(Some("https://test/ref"), None));
    assert_eq!(otf_io.read_cai(FontTable::Present(referring.clone())), Ok(Vec::new()));
    let both = otf_io.write_cai(FontTable::Present(referring), b"test data").unwrap();
    assert_eq!(otf_io.read_cai(FontTable::Present(both.clone())).unwrap(), b"test data");
    assert_eq!(
        otf::read_reference_to_stream(FontTable::Present(both.clone())),
        Ok(Some("https://test/ref".to_string()))
    );
    assert_eq!(otf_io.read_xmp(&FontTable::Present(both.clone())), None);
    // the other way round
    let storing = otf_io.write_cai(FontTable::Absent, b"test data").unwrap();
    assert_eq!(
        otf::add_reference_to_stream(FontTable::Present(storing), "https://test/ref"),
        Ok(both.clone())
    );
    // and without the reference again
    let (change, removed) =
        otf::remove_reference_from_stream(FontTable::Present(both.clone())).unwrap();
    assert_eq!(removed, Some("https://test/ref".to_string()));
    assert_eq!(change, TableChange::Replace(table(None, Some(b"test data"))));
    assert_eq!(
        otf::remove_reference_from_stream(FontTable::Absent),
        Ok((TableChange::Keep, None))
    );
    // and without the table
    assert_eq!(
        otf::remove_c2pa_from_stream(&FontTable::Present(both)),
        Ok(TableChange::Remove)
    );
    assert_eq!(otf_io.read_cai(FontTable::Absent), Err(Error::JumbfNotFound));
    assert_eq!(otf::read_reference_to_stream(FontTable::Absent), Ok(None));
}

#[test]
fn otf_fonts_that_cannot_be_read() {
    let otf_io = OtfIO {};
    let bad = || FontTable::NotAFont;
    let unreadable = || FontTable::Unreadable;
    assert_eq!(otf_io.read_cai(bad()), Err(Error::FontLoadError));
    assert_eq!(otf_io.read_cai(unreadable()), Err(Error::DeserializationError));
    assert_eq!(otf_io.write_cai(bad(), b"x"), Err(Error::FontLoadError));
    assert_eq!(otf_io.write_cai(unreadable(), b"x"), Err(Error::DeserializationError));
    assert_eq!(otf::add_reference_to_stream(bad(), "x"), Err(Error::FontLoadError));
    assert_eq!(otf::read_reference_to_stream(bad()), Err(Error::DeserializationError));
    assert_eq!(otf::remove_c2pa_from_stream(&bad()), Err(Error::FontLoadError));
    // a table that cannot be read can be removed
    assert_eq!(otf::remove_c2pa_from_stream(&unreadable()), Ok(TableChange::Remove));
    assert_eq!(
        otf::remove_reference_from_stream(unreadable()),
        Err(Error::DeserializationError)
    );
    for other in [
        RemoteRefEmbedType::StegoS("s".to_string()),
        RemoteRefEmbedType::StegoB(vec![1]),
        RemoteRefEmbedType::Watermark("w".to_string()),
    ] {
        assert_eq!(
            otf_io.embed_reference_to_stream(FontTable::Absent, other.clone()),
            Err(Error::UnsupportedType)
        );
        assert!(matches!(
            SfntIO {}.embed_reference_to_stream(other),
            Err(Error::UnsupportedType)
        ));
    }
}

// SFNT fonts.

#[test]
fn sfnt_io_reads_c2pa_table_from_stream() {
    let font = Ok(TaggedTable::C2pa(table(Some("file://a"), Some(b"test-data"))));
    let c2pa_data = sfnt::read_c2pa_from_stream(font).unwrap();
    // Verify the active manifest uri
    assert_eq!(Some("file://a".to_string()), c2pa_data.active_manifest_uri);
    // Verify the embedded C2PA data as well
    assert_eq!(Some(b"test-data".to_vec()), c2pa_data.manifest_store);
}

#[test]
fn sfnt_io_build_xmp_from_stream_without_reference() {
    // a font with no C2PA table
    let reference = sfnt::read_reference_from_stream(Ok(TaggedTable::Absent));
    match build_xmp_from_stream(reference) {
        Ok(_) => panic!("Did not expect an OK result, as data is missing"),
        Err(FontError::XmpNotFound) => {}
        Err(_) => panic!("Unexpected error when building XMP data"),
    }
}

#[test]
fn sfnt_io_build_xmp_from_stream_with_reference_not_xmp() {
    let font = Ok(TaggedTable::C2pa(table(Some("file://a"), None)));
    let reference = sfnt::read_reference_from_stream(font);
    assert!(build_xmp_from_stream(reference).is_ok());
}

#[test]
fn sfnt_fonts_are_read() {
    let sfnt_io = SfntIO {};
    let tagged = |uri, store| Ok(TaggedTable::C2pa(table(uri, store)));
    assert_eq!(sfnt_io.read_cai(tagged(None, Some(b"test data"))).unwrap(), b"test data");
    assert_eq!(sfnt_io.read_cai(tagged(Some("uri"), None)), Err(Error::JumbfNotFound));
    assert_eq!(sfnt_io.read_cai(Ok(TaggedTable::Absent)), Err(Error::JumbfNotFound));
    assert_eq!(
        sfnt_io.read_cai(Ok(TaggedTable::Other)),
        Err(Error::FontError(FontError::InvalidNamedTable("Non-C2PA table with C2PA tag")))
    );
    let failed = FontError::C2paFontHandlerIoError;
    assert_eq!(sfnt_io.read_cai(Err(failed)), Err(Error::FontError(failed)));
    assert_eq!(sfnt_io.read_xmp(tagged(Some("uri"), None)), Some("uri".to_string()));
    assert_eq!(sfnt_io.read_xmp(Ok(TaggedTable::Absent)), None);
    assert_eq!(sfnt_io.read_xmp(Err(failed)), None);
}

#[test]
fn sfnt_fonts_are_updated() {
    let update = sfnt::add_c2pa_to_stream(b"test data");
    assert_eq!(update.content_credential, FieldUpdate::Put(b"test data".to_vec()));
    assert_eq!(update.active_manifest_uri, FieldUpdate::Keep);
    let uri = RemoteRefEmbedType::Xmp("https://test/ref".to_string());
    let update = SfntIO {}.embed_reference_to_stream(uri).unwrap();
    assert_eq!(
        update.active_manifest_uri,
        FieldUpdate::Put("https://test/ref".to_string())
    );
    assert_eq!(update.content_credential, FieldUpdate::Keep);
    let font = Ok(TaggedTable::C2pa(table(Some("uri"), None)));
    let (update, removed) = sfnt::remove_reference_from_stream(font).unwrap();
    assert_eq!(removed, Some("uri".to_string()));
    assert_eq!(update.active_manifest_uri, FieldUpdate::Clear);
    assert_eq!(update.content_credential, FieldUpdate::Keep);
    let (_, removed) = sfnt::remove_reference_from_stream(Ok(TaggedTable::Absent)).unwrap();
    assert_eq!(removed, None);
    assert!(sfnt::remove_reference_from_stream(Err(FontError::Unsupported)).is_err());
    assert_eq!(sfnt::add_required_chunks_to_stream(true), None);
    assert_eq!(sfnt::add_required_chunks_to_stream(false), Some(table(None, None)));
}

fn reference_of(update: RecordUpdate) -> String {
    match update.active_manifest_uri {
        FieldUpdate::Put(uri) => uri,
        _ => panic!("Expected a reference"),
    }
}

#[test]
fn references_are_added_as_xmp() {
    let add_key = |xmp: String, key: &'static str, value: String| {
        Ok::<String, ()>(format!("{xmp} {key}={value}"))
    };
    let provenance = |xmp: String, uri: String| Ok::<String, ()>(format!("{xmp} from {uri}"));
    // what is there is taken for XMP
    let font = Ok(TaggedTable::C2pa(table(Some("old"), None)));
    let update =
        sfnt::add_reference_as_xmp_to_stream(font, "new", "<x>", &add_key, &provenance).unwrap();
    assert_eq!(reference_of(update), "old from new");
    // where nothing is, XMP is made with fresh identifiers
    let made = sfnt::add_reference_as_xmp_to_stream(
        Ok(TaggedTable::Absent),
        "new",
        "<x>",
        &add_key,
        &provenance,
    );
    let xmp = reference_of(made.unwrap());
    let start = "<x> xmlns:xmpMM=http://ns.adobe.com/xap/1.0/mm/ xmpMM:DocumentID=";
    assert!(xmp.starts_with(start));
    assert_eq!(xmp.len(), start.len() + 36 + " xmpMM:InstanceID=".len() + 36 + " from new".len());
    // failures
    let no_provenance = |_: String, _: String| Err::<String, ()>(());
    let font = Ok(TaggedTable::C2pa(table(Some("old"), None)));
    assert!(matches!(
        sfnt::add_reference_as_xmp_to_stream(font, "new", "<x>", &add_key, &no_provenance),
        Err(FontError::XmpError("Unable to add provenance"))
    ));
    assert!(matches!(
        sfnt::add_reference_as_xmp_to_stream(
            Ok(TaggedTable::Other),
            "new",
            "<x>",
            &add_key,
            &provenance
        ),
        Err(FontError::InvalidNamedTable(_))
    ));
}

#[test]
fn default_xmp_of_fonts() {
    let add_key = |xmp: String, key: &'static str, value: String| {
        Ok::<String, ()>(format!("{xmp} {key}={value}"))
    };
    let id = |text: &str| Some(text.to_string());
    assert_eq!(
        default_font_xmp_meta("<x>", id("doc"), id("inst"), &add_key).unwrap(),
        "<x> xmlns:xmpMM=http://ns.adobe.com/xap/1.0/mm/ xmpMM:DocumentID=doc \
         xmpMM:InstanceID=inst"
    );
    let refused = |refused: &'static str| {
        move |xmp: String, key: &'static str, _: String| {
            if key == refused {
                Err(())
            } else {
                Ok(xmp)
            }
        }
    };
    assert_eq!(
        default_font_xmp_meta("<x>", None, None, &refused("xmlns:xmpMM")),
        Err(FontError::XmpError("Unable to add media management namespace"))
    );
    assert_eq!(
        default_font_xmp_meta("<x>", None, None, &refused("xmpMM:DocumentID")),
        Err(FontError::XmpError("Unable to add DocumentID"))
    );
    assert_eq!(
        default_font_xmp_meta("<x>", None, None, &refused("xmpMM:InstanceID")),
        Err(FontError::XmpError("Unable to add InstanceID"))
    );
}

#[test]
fn identifiers_are_fresh() {
    assert_eq!(identifier_or_fresh(Some("mine".to_string())), "mine");
    let id = identifier_or_fresh(None);
    assert_eq!(id.len(), 36);
    for (i, c) in id.chars().enumerate() {
        match i {
            8 | 13 | 18 | 23 => assert_eq!(c, '-'),
            14 => assert_eq!(c, '4'),
            19 => assert!("89ab".contains(c)),
            _ => assert!(c.is_ascii_hexdigit() && !c.is_ascii_uppercase()),
        }
    }
    assert_ne!(id, identifier_or_fresh(None));
    assert!(default_document_id().starts_with("fontsoftware:did:"));
    assert!(default_instance_id().starts_with("fontsoftware:iid:"));
    assert_eq!(default_instance_id().len(), 17 + 36);
}

// The parts of fonts.

fn chunk(name: &str, offset: usize, should_hash: bool) -> Chunk {
    Chunk { name: Ok(name.to_string()), offset, length: 10, should_hash }
}

fn box_map(name: &str, range_start: usize) -> BoxMap {
    BoxMap {
        names: vec![name.to_string()],
        alg: None,
        hash: Vec::new(),
        pad: Vec::new(),
        range_start,
        range_len: 10,
    }
}

#[test]
fn parts_of_fonts() {
    let chunks = || {
        vec![chunk("head", 0, true), chunk("C2PA", 10, false), chunk("name", 20, true)]
    };
    let locations = SfntIO {}.get_object_locations_from_stream(Ok(chunks())).unwrap();
    let kinds: Vec<HashBlockObjectType> = locations.iter().map(|l| l.htype).collect();
    assert_eq!(
        kinds,
        [HashBlockObjectType::Other, HashBlockObjectType::Cai, HashBlockObjectType::Other]
    );
    assert_eq!((locations[2].offset, locations[2].length), (20, 10));
    // an SFNT container hashes some of its parts, a WOFF container all
    assert_eq!(
        SfntIO {}.get_box_map(Ok(chunks())).unwrap(),
        [box_map("head", 0), box_map("name", 20)]
    );
    assert_eq!(
        WoffIO {}.get_box_map(Ok(chunks())).unwrap(),
        [box_map("head", 0), box_map("C2PA", 10), box_map("name", 20)]
    );
    // a part without a name
    let unnamed = || {
        let mut chunks = chunks();
        chunks[1].name = Err(FontError::Utf8Error);
        chunks
    };
    assert_eq!(SfntIO {}.get_box_map(Ok(unnamed())).unwrap().len(), 2);
    assert_eq!(
        WoffIO {}.get_box_map(Ok(unnamed())),
        Err(Error::FontError(FontError::Utf8Error))
    );
    let failed = FontError::LoadHeadTableTruncated;
    assert_eq!(SfntIO {}.get_box_map(Err(failed)), Err(Error::FontError(failed)));
    assert_eq!(
        SfntIO {}.get_object_locations_from_stream(Err(failed)),
        Err(Error::FontError(failed))
    );
}

#[test]
fn types_of_fonts() {
    assert_eq!(OtfIO {}.supported_types().len(), 7);
    assert!(OtfIO {}.supported_types().contains(&"font/otf"));
    assert!(SfntIO {}.supported_types().iter().all(|mime| is_font_mime_type(mime)));
    assert_eq!(SfntIO {}.supported_types().len(), 10);
    assert_eq!(
        WoffIO {}.supported_types(),
        ["application/font-woff", "application/x-font-woff", "font/woff", "woff"]
    );
}

// Thumbnails.

/// Test the SVG thumbnail creation fails with error when the feature is not
/// enabled
#[test]
fn test_svg_creation_with_stream_fails_when_feature_not_enabled() {
    let render = |_: ThumbnailFormat| Ok((vec![1u8], "image/svg+xml".to_string()));
    let result = make_thumbnail_from_stream(Some(true), false, render);
    assert!(result.is_err());
    let error = result.unwrap_err();
    assert!(matches!(error, ThumbnailError::FontError(FontError::SvgFeatureNotEnabled)));
}

#[test]
fn thumbnails_of_fonts() {
    let render = |format: ThumbnailFormat| match format {
        ThumbnailFormat::Svg => Ok((vec![1], "image/svg+xml".to_string())),
        ThumbnailFormat::Png => Ok((vec![2], "image/png".to_string())),
    };
    let png = Ok(Some((ThumbnailFormat::Png, vec![2])));
    assert_eq!(make_thumbnail_from_stream(None, false, render), png);
    assert_eq!(make_thumbnail_from_stream(Some(false), true, render), png);
    assert_eq!(
        make_thumbnail_from_stream(Some(true), true, render),
        Ok(Some((ThumbnailFormat::Svg, vec![1])))
    );
    assert_eq!(thumbnail_format("image/png"), Ok(ThumbnailFormat::Png));
    let jpeg = |_: ThumbnailFormat| Ok((vec![3], "image/jpeg".to_string()));
    assert_eq!(
        make_thumbnail_from_stream(None, true, jpeg),
        Err(ThumbnailError::OtherError("Unsupported MIME type: image/jpeg".to_string()))
    );
    let fails = |_: ThumbnailFormat| Err("no glyphs".to_string());
    assert_eq!(
        make_thumbnail_from_stream(None, true, fails),
        Err(ThumbnailError::OtherError("no glyphs".to_string()))
    );
}
