//! What the XMP of a font is made of, whatever makes it.

use vstd::prelude::*;

use crate::font::error::FontError;
use crate::font::sfnt::{sfnt_reference, xmp_with_provenance, TaggedTable};
use crate::font::xmp::{
    default_xmp, identified_xmp, instance_xmp, is_identifier, keyed, provenance_xmp, reference_xmp,
    xmp_result,
};

verus! {

/// Whether a result of making text is what a function on texts gives.
pub open spec fn is_made(r: Result<String, ()>, made: Result<Seq<char>, ()>) -> bool {
    match r {
        Ok(text) => made == Ok::<Seq<char>, ()>(text@),
        Err(_) => made is Err,
    }
}

/// Whether keys are added to XMP as `f` does it.
pub open spec fn adds_keys<F: Fn(String, &'static str, String) -> Result<String, ()>>(
    add_xmp_key: F,
    f: spec_fn(Seq<char>, Seq<char>, Seq<char>) -> Result<Seq<char>, ()>,
) -> bool {
    forall|xmp: String, key: &'static str, value: String, r: Result<String, ()>| #[trigger]
        add_xmp_key.ensures((xmp, key, value), r) ==> is_made(r, f(xmp@, key@, value@))
}

/// Whether the provenance is added to XMP as `g` does it.
pub open spec fn adds_provenance<G: Fn(String, String) -> Result<String, ()>>(
    add_provenance: G,
    g: spec_fn(Seq<char>, Seq<char>) -> Result<Seq<char>, ()>,
) -> bool {
    forall|xmp: String, uri: String, r: Result<String, ()>| #[trigger]
        add_provenance.ensures((xmp, uri), r) ==> is_made(r, g(xmp@, uri@))
}

/// The XMP with the namespace and with both identifiers, or the first thing that cannot be added.
pub open spec fn all_added(
    f: spec_fn(Seq<char>, Seq<char>, Seq<char>) -> Result<Seq<char>, ()>,
    xmp: Seq<char>,
    document: Seq<char>,
    instance: Seq<char>,
) -> Result<Seq<char>, FontError> {
    let named = f(xmp, "xmlns:xmpMM"@, "http://ns.adobe.com/xap/1.0/mm/"@);
    let with_document = f(named->Ok_0, "xmpMM:DocumentID"@, document);
    let with_instance = f(with_document->Ok_0, "xmpMM:InstanceID"@, instance);
    if named is Err {
        Err(FontError::XmpError("Unable to add media management namespace"))
    } else if with_document is Err {
        Err(FontError::XmpError("Unable to add DocumentID"))
    } else if with_instance is Err {
        Err(FontError::XmpError("Unable to add InstanceID"))
    } else {
        Ok(with_instance->Ok_0)
    }
}

/// The default XMP is the given one with the namespace, then the document identifier and then the
/// instance identifier added to it: the given ones, or random ones.
pub proof fn law_default_xmp_is_added_to<
    F: Fn(String, &'static str, String) -> Result<String, ()>,
>(
    add_xmp_key: F,
    f: spec_fn(Seq<char>, Seq<char>, Seq<char>) -> Result<Seq<char>, ()>,
    min_xmp: Seq<char>,
    document_id: Option<Seq<char>>,
    instance_id: Option<Seq<char>>,
    r: Result<Seq<char>, FontError>,
)
    requires
        adds_keys(add_xmp_key, f),
        default_xmp(add_xmp_key, min_xmp, document_id, instance_id, r),
    ensures
        exists|document: Seq<char>, instance: Seq<char>|
            {
                &&& r == #[trigger] all_added(f, min_xmp, document, instance)
                &&& r is Ok ==> is_given_or_random(document_id, document)
                &&& r is Ok ==> is_given_or_random(instance_id, instance)
            },
        document_id matches Some(document) ==> (instance_id matches Some(instance) ==> r
            == all_added(f, min_xmp, document, instance)),
{
    let named = choose|named: Result<String, ()>|
        {
            &&& #[trigger] keyed(
                add_xmp_key,
                min_xmp,
                "xmlns:xmpMM",
                "http://ns.adobe.com/xap/1.0/mm/"@,
                named,
            )
            &&& match named {
                Err(_) => r == Err::<Seq<char>, FontError>(
                    FontError::XmpError("Unable to add media management namespace"),
                ),
                Ok(xmp) => identified_xmp(add_xmp_key, xmp@, document_id, instance_id, r),
            }
        };
    match named {
        Err(_) => {
            assert(r == all_added(f, min_xmp, Seq::empty(), Seq::empty()));
        },
        Ok(xmp) => {
            let (document, made) = choose|id: Seq<char>, made: Result<String, ()>|
                {
                    &&& is_identifier(document_id, id)
                    &&& #[trigger] keyed(add_xmp_key, xmp@, "xmpMM:DocumentID", id, made)
                    &&& match made {
                        Err(_) => r == Err::<Seq<char>, FontError>(
                            FontError::XmpError("Unable to add DocumentID"),
                        ),
                        Ok(xmp) => instance_xmp(add_xmp_key, xmp@, instance_id, r),
                    }
                };
            match made {
                Err(_) => {
                    assert(r == all_added(f, min_xmp, document, Seq::empty()));
                },
                Ok(xmp) => {
                    let (instance, made) = choose|id: Seq<char>, made: Result<String, ()>|
                        {
                            &&& is_identifier(instance_id, id)
                            &&& #[trigger] keyed(add_xmp_key, xmp@, "xmpMM:InstanceID", id, made)
                            &&& match made {
                                Err(_) => r == Err::<Seq<char>, FontError>(
                                    FontError::XmpError("Unable to add InstanceID"),
                                ),
                                Ok(xmp) => r == Ok::<Seq<char>, FontError>(xmp@),
                            }
                        };
                    assert(r == all_added(f, min_xmp, document, instance));
                },
            }
        },
    }
}

/// Whether `text` is the given identifier, or a random one where none is given: groups of eight,
/// four, four, four and twelve digits with hyphens between. The third starts with the digit four,
/// and the fourth with one of the digits from eight to b.
pub open spec fn is_given_or_random(given: Option<Seq<char>>, text: Seq<char>) -> bool {
    match given {
        Some(id) => text == id,
        None => {
            &&& text.len() == 36
            &&& text[8] == '-' && text[13] == '-' && text[18] == '-' && text[23] == '-'
            &&& text[14] == '4'
            &&& text[19] == '8' || text[19] == '9' || text[19] == 'a' || text[19] == 'b'
            &&& forall|i: int|
                0 <= i < 36 && i != 8 && i != 13 && i != 18 && i != 23 ==> {
                    let c = #[trigger] text[i];
                    '0' <= c && c <= '9' || 'a' <= c && c <= 'f'
                }
        },
    }
}

/// The reference of a font is taken for its XMP as it is. There is none where there is no
/// reference, and what is wrong with the font is passed on.
pub proof fn law_references_are_xmp(xmp: Seq<char>, err: FontError, text: String)
    ensures
        reference_xmp(Ok(Some(xmp))) == Ok::<Seq<char>, FontError>(xmp),
        reference_xmp(Ok(None)) == Err::<Seq<char>, FontError>(FontError::XmpNotFound),
        reference_xmp(Err(err)) == Err::<Seq<char>, FontError>(err),
        xmp_result(Ok(text)) == Ok::<Seq<char>, FontError>(text@),
        xmp_result(Err(err)) == Err::<Seq<char>, FontError>(err),
{
}

/// The XMP with the provenance added to it.
pub open spec fn provenance_added(
    g: spec_fn(Seq<char>, Seq<char>) -> Result<Seq<char>, ()>,
    xmp: Seq<char>,
    uri: Seq<char>,
) -> Result<Seq<char>, FontError> {
    if g(xmp, uri) is Ok {
        Ok(g(xmp, uri)->Ok_0)
    } else {
        Err(FontError::XmpError("Unable to add provenance"))
    }
}

/// The provenance is added to the XMP.
pub proof fn law_provenance_is_added<G: Fn(String, String) -> Result<String, ()>>(
    add_provenance: G,
    g: spec_fn(Seq<char>, Seq<char>) -> Result<Seq<char>, ()>,
    xmp: Seq<char>,
    uri: Seq<char>,
    r: Result<Seq<char>, FontError>,
)
    requires
        adds_provenance(add_provenance, g),
        provenance_xmp(add_provenance, xmp, uri, r),
    ensures
        r == provenance_added(g, xmp, uri),
{
}

/// A font that has a reference gets it back with the provenance added. One that has none gets the
/// default XMP, with random identifiers and the provenance added to it.
pub proof fn law_fonts_get_provenance<
    F: Fn(String, &'static str, String) -> Result<String, ()>,
    G: Fn(String, String) -> Result<String, ()>,
>(
    font: Result<TaggedTable, FontError>,
    uri: Seq<char>,
    min_xmp: Seq<char>,
    add_xmp_key: F,
    f: spec_fn(Seq<char>, Seq<char>, Seq<char>) -> Result<Seq<char>, ()>,
    add_provenance: G,
    g: spec_fn(Seq<char>, Seq<char>) -> Result<Seq<char>, ()>,
    r: Result<Seq<char>, FontError>,
)
    requires
        adds_keys(add_xmp_key, f),
        adds_provenance(add_provenance, g),
        xmp_with_provenance(font, uri, min_xmp, add_xmp_key, add_provenance, r),
    ensures
        match sfnt_reference(font) {
            Ok(Some(reference)) => r == provenance_added(g, reference, uri),
            Ok(None) => exists|document: Seq<char>, instance: Seq<char>|
                {
                    let start = #[trigger] all_added(f, min_xmp, document, instance);
                    if start is Ok {
                        &&& is_given_or_random(None, document)
                        &&& is_given_or_random(None, instance)
                        &&& r == provenance_added(g, start->Ok_0, uri)
                    } else {
                        r == start
                    }
                },
            Err(err) => err != FontError::XmpNotFound ==> r == Err::<Seq<char>, FontError>(err),
        },
{
    if sfnt_reference(font) == Ok::<Option<Seq<char>>, FontError>(None) {
        let start = choose|start: Result<Seq<char>, FontError>|
            {
                &&& #[trigger] default_xmp(add_xmp_key, min_xmp, None, None, start)
                &&& match start {
                    Ok(xmp) => provenance_xmp(add_provenance, xmp, uri, r),
                    Err(err) => r == Err::<Seq<char>, FontError>(err),
                }
            };
        law_default_xmp_is_added_to(add_xmp_key, f, min_xmp, None, None, start);
        let (document, instance) = choose|document: Seq<char>, instance: Seq<char>|
            {
                &&& start == #[trigger] all_added(f, min_xmp, document, instance)
                &&& start is Ok ==> is_given_or_random(None, document)
                &&& start is Ok ==> is_given_or_random(None, instance)
            };
        assert(start == all_added(f, min_xmp, document, instance));
        if let Ok(xmp) = start {
            law_provenance_is_added(add_provenance, g, xmp, uri, r);
        }
    }
}

} // verus!
