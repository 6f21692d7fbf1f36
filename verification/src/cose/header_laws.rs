//! What holds of reading the headers of a COSE_Sign1 structure.
//!
//! The laws speak of the parameters of a header by their labels and values alone.

use vstd::prelude::*;

use crate::cose::sign1::{
    byte_strings, core_of, first_label, is_first, is_label, is_ocsp_pair, ocsp_der, ocsp_in,
    protected_labels_of, protected_values_of, sign1_of, sign_certs, signing_alg, timestamp_place,
    undecodable, unprotected_certs, unprotected_labels_of, unprotected_values_of, AlgorithmLabel,
    AlgorithmLabelModel, HeaderLabel, HeaderLabelModel, HeaderModel, HeaderValue, HeaderValueModel,
    MapPairModel, Sign1Model, SigningAlg,
};
use crate::cose::status::{StatusModel, ValidationStatus};
use crate::error::Error;

verus! {

// Structures.

/// A structure is decoded where all its parts are, and holds each of them, with the given data as
/// its payload.
pub proof fn law_structures_hold_their_parts(cose: Seq<u8>, data: Seq<u8>)
    ensures
        sign1_of(cose, data) is Some <==> core_of(cose) is Some && protected_labels_of(cose) is Some
            && protected_values_of(cose) is Some && unprotected_labels_of(cose) is Some
            && unprotected_values_of(cose) is Some,
        sign1_of(cose, data) matches Some(m) ==> {
            &&& core_of(cose) == Some(m.core)
            &&& protected_labels_of(cose) == Some(m.protected.labels)
            &&& protected_values_of(cose) == Some(m.protected.values)
            &&& unprotected_labels_of(cose) == Some(m.unprotected.labels)
            &&& unprotected_values_of(cose) == Some(m.unprotected.values)
            &&& m.payload == data
        },
{
}

/// A structure that cannot be decoded leaves one item in the log: a failure that tells of a
/// signature that does not match its claim.
pub proof fn law_undecodable_structures_are_logged(log: StatusModel)
    ensures
        ({
            let after = undecodable(log);
            let item = after.logged_items.last();
            &&& after.stops_on_error == log.stops_on_error
            &&& after.logged_items == log.logged_items.push(item)
            &&& item.label == "Cose_Sign1"
            &&& item.description == "could not deserialize signature"
            &&& item.function == "get_cose_sign1"
            &&& item.validation_status == Some(ValidationStatus::ClaimSignatureMismatch)
            &&& item.err_val == Some(Error::InvalidCoseSignature)
        }),
{
}

/// The models of labels and values hold what the labels and values do.
pub proof fn law_models_of_parameters(n: i64, text: String, bytes: Vec<u8>)
    ensures
        HeaderLabel::Int(n)@ == HeaderLabelModel::Int(n),
        HeaderLabel::Text(text)@ == HeaderLabelModel::Text(text@),
        HeaderValue::Bytes(bytes)@ == HeaderValueModel::Bytes(bytes@),
        HeaderValue::Other@ == HeaderValueModel::Other,
        AlgorithmLabel::PrivateUse(n)@ == AlgorithmLabelModel::PrivateUse(n),
        AlgorithmLabel::Assigned(n)@ == AlgorithmLabelModel::Assigned(n),
        AlgorithmLabel::Text(text)@ == AlgorithmLabelModel::Text(text@),
{
}

// Algorithms.

/// The number that is assigned to a signature algorithm.
pub open spec fn alg_number(alg: SigningAlg) -> int {
    match alg {
        SigningAlg::Es256 => -7,
        SigningAlg::Es384 => -35,
        SigningAlg::Es512 => -36,
        SigningAlg::Ps256 => -37,
        SigningAlg::Ps384 => -38,
        SigningAlg::Ps512 => -39,
        SigningAlg::Ed25519 => -8,
    }
}

/// The name of a signature algorithm: the family, and the length of the hash or of the curve.
pub open spec fn alg_name(alg: SigningAlg) -> Seq<char> {
    match alg {
        SigningAlg::Es256 => seq!['e', 's', '2', '5', '6'],
        SigningAlg::Es384 => seq!['e', 's', '3', '8', '4'],
        SigningAlg::Es512 => seq!['e', 's', '5', '1', '2'],
        SigningAlg::Ps256 => seq!['p', 's', '2', '5', '6'],
        SigningAlg::Ps384 => seq!['p', 's', '3', '8', '4'],
        SigningAlg::Ps512 => seq!['p', 's', '5', '1', '2'],
        SigningAlg::Ed25519 => seq!['e', 'd', '2', '5', '5', '1', '9'],
    }
}

/// A number stands for the algorithm that it is assigned to and for no other, also where it is
/// given as one for private use.
pub proof fn law_algorithms_by_number(n: i64, alg: SigningAlg)
    ensures
        signing_alg(Some(AlgorithmLabelModel::Assigned(n))) == Some(alg) <==> n == alg_number(alg),
        signing_alg(Some(AlgorithmLabelModel::PrivateUse(n))) == Some(alg) <==> n == alg_number(
            alg,
        ),
{
}

proof fn lemma_names()
    ensures
        "es256"@ =~= seq!['e', 's', '2', '5', '6'],
        "es384"@ =~= seq!['e', 's', '3', '8', '4'],
        "es512"@ =~= seq!['e', 's', '5', '1', '2'],
        "ps256"@ =~= seq!['p', 's', '2', '5', '6'],
        "ps384"@ =~= seq!['p', 's', '3', '8', '4'],
        "ps512"@ =~= seq!['p', 's', '5', '1', '2'],
        "ed25519"@ =~= seq!['e', 'd', '2', '5', '5', '1', '9'],
{
    reveal_strlit("es256");
    reveal_strlit("es384");
    reveal_strlit("es512");
    reveal_strlit("ps256");
    reveal_strlit("ps384");
    reveal_strlit("ps512");
    reveal_strlit("ed25519");
}

/// A name stands for the algorithm that has it and for no other.
pub proof fn law_algorithms_by_name(name: Seq<char>, alg: SigningAlg)
    ensures
        signing_alg(Some(AlgorithmLabelModel::Text(name))) == Some(alg) <==> name == alg_name(alg),
{
    lemma_names();
    assert(seq!['e', 's', '2', '5', '6'][0] != seq!['p', 's', '2', '5', '6'][0]);
    let all = alg_name(alg);
    assert(all.len() == 5 || all.len() == 7);
    assert(all[0] == 'e' || all[0] == 'p');
    assert(all[1] == 's' || all[1] == 'd');
    assert(all[2] == '2' || all[2] == '3' || all[2] == '5');
    assert forall|other: SigningAlg| alg_name(other) == all implies other == alg by {
        assert(alg_name(other)[0] == all[0] && alg_name(other)[1] == all[1]);
        assert(alg_name(other)[2] == all[2] && alg_name(other).len() == all.len());
    }
    if let Some(found) = signing_alg(Some(AlgorithmLabelModel::Text(name))) {
        assert(name == alg_name(found));
    }
}

/// A structure that names no algorithm has none.
pub proof fn law_no_algorithm()
    ensures
        signing_alg(None) is None,
{
}

// Parameters.

/// A parameter is found by its name: it is the first of that name.
pub proof fn law_named_parameters_are_found(h: HeaderModel, name: Seq<char>, i: int)
    requires
        0 <= i < h.labels.len(),
        h.labels[i] == HeaderLabelModel::Text(name),
        forall|k: int| 0 <= k < i ==> #[trigger] h.labels[k] != HeaderLabelModel::Text(name),
    ensures
        first_label(h, name, false) == Some(i),
        (forall|k: int| 0 <= k < i ==> #[trigger] h.labels[k] != HeaderLabelModel::Int(33))
            ==> first_label(h, name, true) == Some(i),
{
    lemma_first(h, name, false, i);
    if forall|k: int| 0 <= k < i ==> #[trigger] h.labels[k] != HeaderLabelModel::Int(33) {
        lemma_first(h, name, true, i);
    }
}

/// The one place where a label is for the first time is the one that is found.
proof fn lemma_first(h: HeaderModel, name: Seq<char>, numbered: bool, i: int)
    requires
        0 <= i < h.labels.len(),
        is_chain_label(h.labels[i], name, numbered),
        forall|k: int| 0 <= k < i ==> !is_chain_label(#[trigger] h.labels[k], name, numbered),
    ensures
        first_label(h, name, numbered) == Some(i),
{
    assert(is_first(h, name, numbered, i)) by {
        assert forall|k: int| 0 <= k < i implies !is_label(
            #[trigger] h.labels[k],
            name,
            numbered,
        ) by {
            assert(!is_chain_label(h.labels[k], name, numbered));
        }
    }
    let j = choose|j: int| is_first(h, name, numbered, j);
    assert(is_first(h, name, numbered, j));
    if j < i {
        assert(!is_chain_label(h.labels[j], name, numbered));
    } else if i < j {
        assert(!is_label(h.labels[i], name, numbered));
    }
}

/// Whether a label is the given name or, where it may be, the number 33 of a chain of
/// certificates.
pub open spec fn is_chain_label(label: HeaderLabelModel, name: Seq<char>, numbered: bool) -> bool {
    label == HeaderLabelModel::Text(name) || numbered && label == HeaderLabelModel::Int(33)
}

/// A parameter that is not there is not found.
pub proof fn law_absent_parameters_are_not_found(h: HeaderModel, name: Seq<char>)
    requires
        forall|k: int|
            0 <= k < h.labels.len() ==> #[trigger] h.labels[k] != HeaderLabelModel::Text(name),
    ensures
        first_label(h, name, false) is None,
        (forall|k: int|
            0 <= k < h.labels.len() ==> #[trigger] h.labels[k] != HeaderLabelModel::Int(33))
            ==> first_label(h, name, true) is None,
{
    lemma_absent(h, name, false);
    if forall|k: int|
        0 <= k < h.labels.len() ==> #[trigger] h.labels[k] != HeaderLabelModel::Int(33) {
        lemma_absent(h, name, true);
    }
}

proof fn lemma_absent(h: HeaderModel, name: Seq<char>, numbered: bool)
    requires
        forall|k: int|
            0 <= k < h.labels.len() ==> !is_chain_label(#[trigger] h.labels[k], name, numbered),
    ensures
        first_label(h, name, numbered) is None,
{
    if first_label(h, name, numbered) is Some {
        let j = choose|j: int| is_first(h, name, numbered, j);
        assert(is_first(h, name, numbered, j));
        assert(!is_chain_label(h.labels[j], name, numbered));
    }
}

/// The time stamp of a structure is the first parameter of its unprotected header that is named
/// `sigTst`.
pub proof fn law_time_stamps_are_named(m: Sign1Model, i: int)
    requires
        0 <= i < m.unprotected.labels.len(),
    ensures
        timestamp_place(m) == Some(i) <==> m.unprotected.labels[i] == HeaderLabelModel::Text(
            "sigTst"@,
        ) && forall|k: int|
            0 <= k < i ==> #[trigger] m.unprotected.labels[k] != HeaderLabelModel::Text("sigTst"@),
{
    let h = m.unprotected;
    if m.unprotected.labels[i] == HeaderLabelModel::Text("sigTst"@) && forall|k: int|
        0 <= k < i ==> #[trigger] m.unprotected.labels[k] != HeaderLabelModel::Text("sigTst"@) {
        lemma_first(h, "sigTst"@, false, i);
    }
    if timestamp_place(m) == Some(i) {
        assert(is_first(h, "sigTst"@, false, i));
        assert forall|k: int| 0 <= k < i implies #[trigger] h.labels[k] != HeaderLabelModel::Text(
            "sigTst"@,
        ) by {
            assert(!is_label(h.labels[k], "sigTst"@, false));
        }
    }
}

// Certificates.

/// Whether the chain of certificates of a header is the parameter at `i`: the first that is named
/// `x5chain` or, where that is allowed, numbered 33.
pub open spec fn has_chain_at(h: HeaderModel, numbered: bool, i: int) -> bool {
    &&& 0 <= i < h.labels.len()
    &&& is_chain_label(h.labels[i], "x5chain"@, numbered)
    &&& forall|k: int| 0 <= k < i ==> !is_chain_label(#[trigger] h.labels[k], "x5chain"@, numbered)
}

/// Whether a header has no chain of certificates.
pub open spec fn has_no_chain(h: HeaderModel, numbered: bool) -> bool {
    forall|k: int|
        0 <= k < h.labels.len() ==> !is_chain_label(#[trigger] h.labels[k], "x5chain"@, numbered)
}

/// The byte strings among the items of an array, in order.
pub open spec fn strings_of(items: Seq<Option<Seq<u8>>>) -> Seq<Seq<u8>> {
    items.filter_map(|item: Option<Seq<u8>>| item)
}

/// What the value of a chain gives: the one certificate that is a byte string, or those of an
/// array that are. `none` is the error where an array has none.
pub open spec fn gives_certs(
    value: HeaderValueModel,
    none: Error,
    r: Result<Seq<Seq<u8>>, Error>,
) -> bool {
    &&& value matches HeaderValueModel::Bytes(b) ==> r == Ok::<Seq<Seq<u8>>, Error>(seq![b])
    &&& value matches HeaderValueModel::Array(items) ==> {
        &&& strings_of(items).len() > 0 ==> r == Ok::<Seq<Seq<u8>>, Error>(strings_of(items))
        &&& strings_of(items).len() == 0 ==> r == Err::<Seq<Seq<u8>>, Error>(none)
    }
    &&& !(value is Bytes) && !(value is Array) ==> r == Err::<Seq<Seq<u8>>, Error>(
        Error::CoseX5ChainMissing,
    )
}

/// Whether the value of a chain holds a certificate.
pub open spec fn has_cert(value: HeaderValueModel) -> bool {
    value is Bytes || (value matches HeaderValueModel::Array(items) && exists|i: int|
        0 <= i < items.len() && (#[trigger] items[i]) is Some)
}

proof fn lemma_strings(items: Seq<Option<Seq<u8>>>)
    ensures
        byte_strings(items) == strings_of(items),
        strings_of(items).len() > 0 <==> exists|i: int|
            0 <= i < items.len() && (#[trigger] items[i]) is Some,
    decreases items.len(),
{
    if items.len() > 0 {
        let less = items.drop_last();
        lemma_strings(less);
        assert(byte_strings(items) =~= strings_of(items));
        if exists|i: int| 0 <= i < items.len() && (#[trigger] items[i]) is Some {
            let i = choose|i: int| 0 <= i < items.len() && (#[trigger] items[i]) is Some;
            if i < less.len() {
                assert(less[i] is Some);
            }
        }
        if strings_of(items).len() > 0 {
            if items.last() is Some {
                assert(items[items.len() - 1] is Some);
            } else {
                let i = choose|i: int| 0 <= i < less.len() && (#[trigger] less[i]) is Some;
                assert(items[i] is Some);
            }
        }
    } else {
        assert(byte_strings(items) =~= strings_of(items));
    }
}

proof fn lemma_unprotected(m: Sign1Model)
    ensures
        forall|i: int| #[trigger]
            has_chain_at(m.unprotected, false, i) ==> {
                &&& gives_certs(
                    m.unprotected.values[i],
                    Error::CoseMissingKey,
                    unprotected_certs(m),
                )
                &&& unprotected_certs(m) is Ok <==> has_cert(m.unprotected.values[i])
            },
        has_no_chain(m.unprotected, false) ==> unprotected_certs(m) == Err::<Seq<Seq<u8>>, Error>(
            Error::CoseX5ChainMissing,
        ),
{
    assert forall|i: int| #[trigger] has_chain_at(m.unprotected, false, i) implies {
        &&& gives_certs(m.unprotected.values[i], Error::CoseMissingKey, unprotected_certs(m))
        &&& unprotected_certs(m) is Ok <==> has_cert(m.unprotected.values[i])
    } by {
        lemma_first(m.unprotected, "x5chain"@, false, i);
        if let HeaderValueModel::Array(items) = m.unprotected.values[i] {
            lemma_strings(items);
        }
    }
    if has_no_chain(m.unprotected, false) {
        lemma_absent(m.unprotected, "x5chain"@, false);
    }
}

/// The certificates in the unprotected header are those of its first parameter named `x5chain`:
/// the one that is a byte string, or those of an array that are.
pub proof fn law_unprotected_certificates(m: Sign1Model, i: int)
    requires
        has_chain_at(m.unprotected, false, i),
    ensures
        gives_certs(m.unprotected.values[i], Error::CoseMissingKey, unprotected_certs(m)),
{
    lemma_unprotected(m);
}

/// Where the protected header has no chain of certificates, those of a structure are the ones in
/// the unprotected header.
pub proof fn law_legacy_certificates(m: Sign1Model, i: int)
    requires
        has_no_chain(m.protected, true),
        has_chain_at(m.unprotected, false, i),
    ensures
        gives_certs(m.unprotected.values[i], Error::CoseMissingKey, sign_certs(m)),
{
    lemma_unprotected(m);
    lemma_absent(m.protected, "x5chain"@, true);
}

/// The certificates of a structure are those in its protected header, by name or by number, where
/// the unprotected header holds none; else there is an error.
pub proof fn law_protected_certificates(m: Sign1Model, i: int)
    requires
        has_chain_at(m.protected, true, i),
    ensures
        has_no_chain(m.unprotected, false) ==> gives_certs(
            m.protected.values[i],
            Error::CoseX5ChainMissing,
            sign_certs(m),
        ),
        forall|j: int| #[trigger]
            has_chain_at(m.unprotected, false, j) ==> if has_cert(m.unprotected.values[j]) {
                sign_certs(m) == Err::<Seq<Seq<u8>>, Error>(Error::CoseVerifier)
            } else {
                gives_certs(m.protected.values[i], Error::CoseX5ChainMissing, sign_certs(m))
            },
{
    lemma_unprotected(m);
    lemma_first(m.protected, "x5chain"@, true, i);
    if let HeaderValueModel::Array(items) = m.protected.values[i] {
        lemma_strings(items);
    }
}

/// A structure with no chain of certificates in either header has none.
pub proof fn law_no_certificates(m: Sign1Model)
    requires
        has_no_chain(m.protected, true),
        has_no_chain(m.unprotected, false),
    ensures
        sign_certs(m) == Err::<Seq<Seq<u8>>, Error>(Error::CoseX5ChainMissing),
        unprotected_certs(m) == Err::<Seq<Seq<u8>>, Error>(Error::CoseX5ChainMissing),
{
    lemma_unprotected(m);
    lemma_absent(m.protected, "x5chain"@, true);
}

// Responses of OCSP responders.

/// Whether a pair of a map gives the response `der`: it is named `ocspVals` and holds an array that
/// starts with `der`.
pub open spec fn gives_response(p: MapPairModel, der: Seq<u8>) -> bool {
    p.key == Some("ocspVals"@) && (p.value matches Some(items) && items.len() > 0 && items[0]
        == Some(der))
}

proof fn lemma_responses(pairs: Seq<MapPairModel>, der: Seq<u8>)
    ensures
        ocsp_in(pairs) == Some(der) <==> exists|i: int|
            0 <= i < pairs.len() && #[trigger] gives_response(pairs[i], der) && forall|k: int, d:
                Seq<u8>| 0 <= k < i ==> !#[trigger] gives_response(pairs[k], d),
    decreases pairs.len(),
{
    if pairs.len() > 0 {
        let rest = pairs.drop_first();
        lemma_responses(rest, der);
        let p = pairs[0];
        if is_ocsp_pair(p) {
            let d0 = p.value->0[0]->0;
            assert(gives_response(p, d0));
            if ocsp_in(pairs) == Some(der) {
                assert(gives_response(pairs[0], der));
            }
            if exists|i: int|
                0 <= i < pairs.len() && #[trigger] gives_response(pairs[i], der) && forall|k: int,
                    d: Seq<u8>| 0 <= k < i ==> !#[trigger] gives_response(pairs[k], d) {
                let i = choose|i: int|
                    0 <= i < pairs.len() && #[trigger] gives_response(pairs[i], der) && forall|
                        k: int,
                        d: Seq<u8>,
                    | 0 <= k < i ==> !#[trigger] gives_response(pairs[k], d);
                if i > 0 {
                    assert(!gives_response(pairs[0], d0));
                }
            }
        } else {
            assert forall|d: Seq<u8>| !#[trigger] gives_response(p, d) by {}
            if ocsp_in(rest) == Some(der) {
                let i = choose|i: int|
                    0 <= i < rest.len() && #[trigger] gives_response(rest[i], der) && forall|
                        k: int,
                        d: Seq<u8>,
                    | 0 <= k < i ==> !#[trigger] gives_response(rest[k], d);
                assert(gives_response(pairs[i + 1], der));
                assert forall|k: int, d: Seq<u8>| 0 <= k < i + 1 implies !#[trigger] gives_response(
                    pairs[k],
                    d,
                ) by {
                    if k > 0 {
                        assert(!gives_response(rest[k - 1], d));
                    }
                }
            }
            if exists|i: int|
                0 <= i < pairs.len() && #[trigger] gives_response(pairs[i], der) && forall|k: int,
                    d: Seq<u8>| 0 <= k < i ==> !#[trigger] gives_response(pairs[k], d) {
                let i = choose|i: int|
                    0 <= i < pairs.len() && #[trigger] gives_response(pairs[i], der) && forall|
                        k: int,
                        d: Seq<u8>,
                    | 0 <= k < i ==> !#[trigger] gives_response(pairs[k], d);
                assert(i > 0);
                assert(gives_response(rest[i - 1], der));
                assert forall|k: int, d: Seq<u8>| 0 <= k < i - 1 implies !#[trigger] gives_response(
                    rest[k],
                    d,
                ) by {
                    assert(!gives_response(pairs[k + 1], d));
                }
            }
        }
    }
}

/// The response that a structure carries is the one that the first pair gives that gives any, in
/// the map that is the first parameter of the unprotected header named `rVals`.
pub proof fn law_carried_responses(m: Sign1Model, i: int, der: Seq<u8>)
    requires
        0 <= i < m.unprotected.labels.len(),
        m.unprotected.labels[i] == HeaderLabelModel::Text("rVals"@),
        forall|k: int|
            0 <= k < i ==> #[trigger] m.unprotected.labels[k] != HeaderLabelModel::Text("rVals"@),
    ensures
        m.unprotected.values[i] matches HeaderValueModel::Pairs(pairs) ==> (ocsp_der(m) == Some(der)
            <==> exists|i: int|
            0 <= i < pairs.len() && #[trigger] gives_response(pairs[i], der) && forall|k: int, d:
                Seq<u8>| 0 <= k < i ==> !#[trigger] gives_response(pairs[k], d)),
        !(m.unprotected.values[i] is Pairs) ==> ocsp_der(m) is None,
{
    lemma_first(m.unprotected, "rVals"@, false, i);
    if let HeaderValueModel::Pairs(pairs) = m.unprotected.values[i] {
        lemma_responses(pairs, der);
    }
}

/// A structure without a parameter named `rVals` in its unprotected header carries no response.
pub proof fn law_no_carried_response(m: Sign1Model)
    requires
        forall|k: int|
            0 <= k < m.unprotected.labels.len() ==> #[trigger] m.unprotected.labels[k]
                != HeaderLabelModel::Text("rVals"@),
    ensures
        ocsp_der(m) is None,
{
    law_absent_parameters_are_not_found(m.unprotected, "rVals"@);
}

} // verus!
