//! XMP for fonts, which have none of their own. The reference to the active manifest is taken
//! for it, and made as XMP is made.

use vstd::prelude::*;

use vstd::string::StringExecFns;

use crate::font::error::FontError;
use crate::font::table::{text_of, text_result};

verus! {

// Identifiers.

/// Whether `c` is a hexadecimal digit in lower case.
pub open spec fn is_hex(c: char) -> bool {
    ('0' <= c && c <= '9') || ('a' <= c && c <= 'f')
}

/// Whether `text` is a random UUID in its hyphenated form.
pub open spec fn is_random_uuid(text: Seq<char>) -> bool {
    &&& text.len() == 36
    &&& forall|i: int|
        0 <= i < 36 ==> if i == 8 || i == 13 || i == 18 || i == 23 {
            (#[trigger] text[i]) == '-'
        } else {
            is_hex(text[i])
        }
    &&& text[14] == '4'
    &&& text[19] == '8' || text[19] == '9' || text[19] == 'a' || text[19] == 'b'
}

/// `uuid::Uuid::new_v4`, as text: a UUID of version 4 and of the standard variant, in lower case
/// with hyphens. Which one is left to chance.
#[verifier::external_body]
pub(crate) fn fresh_uuid() -> (r: String)
    ensures
        is_random_uuid(r@),
{
    uuid::Uuid::new_v4().to_string()
}

/// Whether `text` is the given identifier, or a fresh one where none is given.
pub open spec fn is_identifier(given: Option<Seq<char>>, text: Seq<char>) -> bool {
    match given {
        Some(id) => text == id,
        None => is_random_uuid(text),
    }
}

/// The given identifier, or a fresh one.
pub fn identifier_or_fresh(given: Option<String>) -> (r: String)
    ensures
        is_identifier(text_of(given), r@),
{
    match given {
        Some(id) => id,
        None => fresh_uuid(),
    }
}

/// A document identifier for a font.
pub fn default_document_id() -> (r: String)
    ensures
        exists|id: Seq<char>| #[trigger] is_random_uuid(id) && r@ == "fontsoftware:did:"@ + id,
{
    let id = fresh_uuid();
    String::from_str("fontsoftware:did:").concat(id.as_str())
}

/// An instance identifier for a font.
pub fn default_instance_id() -> (r: String)
    ensures
        exists|id: Seq<char>| #[trigger] is_random_uuid(id) && r@ == "fontsoftware:iid:"@ + id,
{
    let id = fresh_uuid();
    String::from_str("fontsoftware:iid:").concat(id.as_str())
}

// XMP.

/// Whether `made` may come of adding `key` with `value` to `xmp`.
pub open spec fn keyed<F: Fn(String, &'static str, String) -> Result<String, ()>>(
    add_xmp_key: F,
    xmp: Seq<char>,
    key: &'static str,
    value: Seq<char>,
    made: Result<String, ()>,
) -> bool {
    exists|x: String, v: String|
        x@ == xmp && v@ == value && #[trigger] add_xmp_key.ensures((x, key, v), made)
}

/// Whether `r` may be the default XMP of a font, made from the least XMP there is: the namespace
/// is added to it first, the document identifier to what comes of that, and the instance
/// identifier last.
pub open spec fn default_xmp<F: Fn(String, &'static str, String) -> Result<String, ()>>(
    add_xmp_key: F,
    min_xmp: Seq<char>,
    document_id: Option<Seq<char>>,
    instance_id: Option<Seq<char>>,
    r: Result<Seq<char>, FontError>,
) -> bool {
    exists|named: Result<String, ()>|
        {
            &&& #[trigger] keyed(
                add_xmp_key,
                min_xmp,
                "xmlns:xmpMM",
                "http://ns.adobe.com/xap/1.0/mm/"@,
                named,
            )
            &&& match named {
                Err(_) => r == Err::<Seq<char>, FontError>(
                    FontError::XmpError("Unable to add media management namespace"),
                ),
                Ok(xmp) => identified_xmp(add_xmp_key, xmp@, document_id, instance_id, r),
            }
        }
}

/// Whether `r` may come of adding the two identifiers to `xmp`.
pub open spec fn identified_xmp<F: Fn(String, &'static str, String) -> Result<String, ()>>(
    add_xmp_key: F,
    xmp: Seq<char>,
    document_id: Option<Seq<char>>,
    instance_id: Option<Seq<char>>,
    r: Result<Seq<char>, FontError>,
) -> bool {
    exists|id: Seq<char>, made: Result<String, ()>|
        {
            &&& is_identifier(document_id, id)
            &&& #[trigger] keyed(add_xmp_key, xmp, "xmpMM:DocumentID", id, made)
            &&& match made {
                Err(_) => r == Err::<Seq<char>, FontError>(
                    FontError::XmpError("Unable to add DocumentID"),
                ),
                Ok(xmp) => instance_xmp(add_xmp_key, xmp@, instance_id, r),
            }
        }
}

/// Whether `r` may come of adding the instance identifier to `xmp`.
pub open spec fn instance_xmp<F: Fn(String, &'static str, String) -> Result<String, ()>>(
    add_xmp_key: F,
    xmp: Seq<char>,
    instance_id: Option<Seq<char>>,
    r: Result<Seq<char>, FontError>,
) -> bool {
    exists|id: Seq<char>, made: Result<String, ()>|
        {
            &&& is_identifier(instance_id, id)
            &&& #[trigger] keyed(add_xmp_key, xmp, "xmpMM:InstanceID", id, made)
            &&& match made {
                Err(_) => r == Err::<Seq<char>, FontError>(
                    FontError::XmpError("Unable to add InstanceID"),
                ),
                Ok(xmp) => r == Ok::<Seq<char>, FontError>(xmp@),
            }
        }
}

/// A result, with its text in place of the string that holds it.
pub open spec fn xmp_result(r: Result<String, FontError>) -> Result<Seq<char>, FontError> {
    match r {
        Ok(xmp) => Ok(xmp@),
        Err(err) => Err(err),
    }
}

/// Creates the default XMP for fonts, using the specified document and instance identifiers.
///
/// Random values will be used for the document/instance IDs as needed.
pub fn default_font_xmp_meta<F>(
    min_xmp: &str,
    document_id: Option<String>,
    instance_id: Option<String>,
    add_xmp_key: &F,
) -> (r: Result<String, FontError>) where
    F: Fn(String, &'static str, String) -> Result<String, ()>,

    requires
        forall|xmp: String, key: &'static str, value: String|
            add_xmp_key.requires((xmp, key, value)),
    ensures
        default_xmp(
            *add_xmp_key,
            min_xmp@,
            text_of(document_id),
            text_of(instance_id),
            xmp_result(r),
        ),
{
    let ghost given_document = text_of(document_id);
    let ghost given_instance = text_of(instance_id);
    let start: String = min_xmp.to_owned();
    let namespace: String = "http://ns.adobe.com/xap/1.0/mm/".to_owned();
    let named = add_xmp_key(start, "xmlns:xmpMM", namespace);
    proof {
        assert(keyed(
            *add_xmp_key,
            min_xmp@,
            "xmlns:xmpMM",
            "http://ns.adobe.com/xap/1.0/mm/"@,
            named,
        ));
    }
    let xmp: String = match named {
        Ok(xmp) => xmp,
        Err(_) => return Err(FontError::XmpError("Unable to add media management namespace")),
    };
    let document: String = identifier_or_fresh(document_id);
    let with_document = add_xmp_key(xmp, "xmpMM:DocumentID", document);
    proof {
        assert(keyed(*add_xmp_key, xmp@, "xmpMM:DocumentID", document@, with_document));
    }
    let identified: String = match with_document {
        Ok(xmp) => xmp,
        Err(_) => return Err(FontError::XmpError("Unable to add DocumentID")),
    };
    let instance: String = identifier_or_fresh(instance_id);
    let with_instance = add_xmp_key(identified, "xmpMM:InstanceID", instance);
    proof {
        assert(keyed(*add_xmp_key, identified@, "xmpMM:InstanceID", instance@, with_instance));
    }
    match with_instance {
        Ok(xmp) => {
            proof {
                assert(instance_xmp(
                    *add_xmp_key,
                    identified@,
                    given_instance,
                    Ok::<Seq<char>, FontError>(xmp@),
                ));
            }
            Ok(xmp)
        },
        Err(_) => {
            proof {
                assert(instance_xmp(
                    *add_xmp_key,
                    identified@,
                    given_instance,
                    Err::<Seq<char>, FontError>(FontError::XmpError("Unable to add InstanceID")),
                ));
            }
            Err(FontError::XmpError("Unable to add InstanceID"))
        },
    }
}

/// The reference, taken for XMP, or the error that there is none.
pub open spec fn reference_xmp(reference: Result<Option<Seq<char>>, FontError>) -> Result<
    Seq<char>,
    FontError,
> {
    match reference {
        Ok(Some(xmp)) => Ok(xmp),
        Ok(None) => Err(FontError::XmpNotFound),
        Err(err) => Err(err),
    }
}

/// The XMP of a font, given the reference to the active manifest that was read from it.
pub fn build_xmp_from_stream(reference: Result<Option<String>, FontError>) -> (r: Result<
    String,
    FontError,
>)
    ensures
        xmp_result(r) == reference_xmp(text_result(reference)),
{
    match reference? {
        // For now we pretend the reference read from the stream is really XMP
        // data
        Some(xmp) => Ok(xmp),
        // Mention there is no data representing XMP found
        None => Err(FontError::XmpNotFound),
    }
}

/// Whether `r` may come of adding the provenance `uri` to `xmp`.
pub open spec fn provenance_xmp<G: Fn(String, String) -> Result<String, ()>>(
    add_provenance: G,
    xmp: Seq<char>,
    uri: Seq<char>,
    r: Result<Seq<char>, FontError>,
) -> bool {
    exists|x: String, u: String, made: Result<String, ()>|
        {
            &&& x@ == xmp
            &&& u@ == uri
            &&& #[trigger] add_provenance.ensures((x, u), made)
            &&& r == match made {
                Ok(xmp) => Ok::<Seq<char>, FontError>(xmp@),
                Err(_) => Err(FontError::XmpError("Unable to add provenance")),
            }
        }
}

/// The XMP that refers to a manifest, to be stored as the reference of a font: the XMP that the
/// font has, or the default one, with the provenance added to it.
pub fn reference_as_xmp<F, G>(
    reference: Result<Option<String>, FontError>,
    manifest_uri: &str,
    min_xmp: &str,
    add_xmp_key: &F,
    add_provenance: &G,
) -> (r: Result<String, FontError>) where
    F: Fn(String, &'static str, String) -> Result<String, ()>,
    G: Fn(String, String) -> Result<String, ()>,

    requires
        forall|xmp: String, key: &'static str, value: String|
            add_xmp_key.requires((xmp, key, value)),
        forall|xmp: String, uri: String| add_provenance.requires((xmp, uri)),
    ensures
        match reference_xmp(text_result(reference)) {
            Ok(xmp) => provenance_xmp(*add_provenance, xmp, manifest_uri@, xmp_result(r)),
            Err(FontError::XmpNotFound) => exists|start: Result<Seq<char>, FontError>|
                {
                    &&& #[trigger] default_xmp(*add_xmp_key, min_xmp@, None, None, start)
                    &&& match start {
                        Ok(xmp) => provenance_xmp(
                            *add_provenance,
                            xmp,
                            manifest_uri@,
                            xmp_result(r),
                        ),
                        Err(err) => r == Err::<String, FontError>(err),
                    }
                },
            Err(err) => r == Err::<String, FontError>(err),
        },
{
    let start: String = match build_xmp_from_stream(reference) {
        // Use the data already available
        Ok(meta) => meta,
        // If data was not found for building out the XMP, we will default
        // to some good starting points
        Err(FontError::XmpNotFound) => {
            let made = default_font_xmp_meta(min_xmp, None, None, add_xmp_key);
            proof {
                assert(default_xmp(*add_xmp_key, min_xmp@, None, None, xmp_result(made)));
            }
            match made {
                Ok(meta) => meta,
                Err(err) => return Err(err),
            }
        },
        // At this point, the font is considered to be invalid possibly
        Err(err) => return Err(err),
    };
    let uri: String = manifest_uri.to_owned();
    let made = add_provenance(start, uri);
    match made {
        Ok(xmp) => {
            proof {
                assert(provenance_xmp(
                    *add_provenance,
                    start@,
                    manifest_uri@,
                    Ok::<Seq<char>, FontError>(xmp@),
                ));
            }
            Ok(xmp)
        },
        Err(_) => {
            proof {
                assert(provenance_xmp(
                    *add_provenance,
                    start@,
                    manifest_uri@,
                    Err::<Seq<char>, FontError>(FontError::XmpError("Unable to add provenance")),
                ));
            }
            Err(FontError::XmpError("Unable to add provenance"))
        },
    }
}

} // verus!
