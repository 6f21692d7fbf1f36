//! COSE_Sign1 structures: what they are signed with, and what their headers carry.
//!
//! The structures are decoded by the `coset` crate.

use vstd::prelude::*;

use ciborium::value::Value;
use coset::iana::EnumI64;
use coset::CoseSign1 as CoseSign1Data;
use coset::{Label, RegisteredLabelWithPrivate, TaggedCborSerializable};

use crate::cose::status::{failure, StatusModel, StatusTracker, ValidationStatus};
use crate::endian::put_bytes;
use crate::error::Error;
use crate::text::str_eq;

verus! {

/// The algorithm that a structure says it is signed with.
#[derive(Clone, Debug, PartialEq, Eq)]
pub enum AlgorithmLabel {
    /// By a number in the range for private use.
    PrivateUse(i64),
    /// By a number that is assigned to it.
    Assigned(i64),
    /// By name.
    Text(String),
}

/// What an [`AlgorithmLabel`] holds.
pub enum AlgorithmLabelModel {
    PrivateUse(i64),
    Assigned(i64),
    Text(Seq<char>),
}

impl View for AlgorithmLabel {
    type V = AlgorithmLabelModel;

    open spec fn view(&self) -> AlgorithmLabelModel {
        match self {
            AlgorithmLabel::PrivateUse(n) => AlgorithmLabelModel::PrivateUse(*n),
            AlgorithmLabel::Assigned(n) => AlgorithmLabelModel::Assigned(*n),
            AlgorithmLabel::Text(text) => AlgorithmLabelModel::Text(text@),
        }
    }
}

/// The label of a header parameter.
#[derive(Clone, Debug, PartialEq, Eq)]
pub enum HeaderLabel {
    Int(i64),
    Text(String),
}

/// What a [`HeaderLabel`] holds.
pub enum HeaderLabelModel {
    Int(i64),
    Text(Seq<char>),
}

impl View for HeaderLabel {
    type V = HeaderLabelModel;

    open spec fn view(&self) -> HeaderLabelModel {
        match self {
            HeaderLabel::Int(n) => HeaderLabelModel::Int(*n),
            HeaderLabel::Text(text) => HeaderLabelModel::Text(text@),
        }
    }
}

/// The items of a CBOR array, each none where it is not a byte string.
#[derive(Clone, Debug, PartialEq, Eq)]
pub struct ByteStrings {
    pub items: Vec<Option<Vec<u8>>>,
}

impl View for ByteStrings {
    type V = Seq<Option<Seq<u8>>>;

    open spec fn view(&self) -> Seq<Option<Seq<u8>>> {
        self.items@.map_values(
            |item: Option<Vec<u8>>|
                match item {
                    Some(bytes) => Some(bytes@),
                    None => None,
                },
        )
    }
}

/// One pair of a CBOR map: the key, where it is text, and the value, where it is an array.
#[derive(Clone, Debug, PartialEq, Eq)]
pub struct MapPair(pub Option<String>, pub Option<ByteStrings>);

/// What a [`MapPair`] holds.
pub struct MapPairModel {
    pub key: Option<Seq<char>>,
    pub value: Option<Seq<Option<Seq<u8>>>>,
}

impl View for MapPair {
    type V = MapPairModel;

    open spec fn view(&self) -> MapPairModel {
        MapPairModel {
            key: match self.0 {
                Some(text) => Some(text@),
                None => None,
            },
            value: match self.1 {
                Some(array) => Some(array@),
                None => None,
            },
        }
    }
}

/// The value of a header parameter.
#[derive(Clone, Debug, PartialEq, Eq)]
pub enum HeaderValue {
    Bytes(Vec<u8>),
    Array(ByteStrings),
    Pairs(Vec<MapPair>),
    Other,
}

/// What a [`HeaderValue`] holds.
pub enum HeaderValueModel {
    Bytes(Seq<u8>),
    Array(Seq<Option<Seq<u8>>>),
    Pairs(Seq<MapPairModel>),
    Other,
}

impl View for HeaderValue {
    type V = HeaderValueModel;

    open spec fn view(&self) -> HeaderValueModel {
        match self {
            HeaderValue::Bytes(bytes) => HeaderValueModel::Bytes(bytes@),
            HeaderValue::Array(array) => HeaderValueModel::Array(array@),
            HeaderValue::Pairs(pairs) => HeaderValueModel::Pairs(pairs@.map_values(|p: MapPair| p@)),
            HeaderValue::Other => HeaderValueModel::Other,
        }
    }
}

/// The algorithm and the signature of a structure.
#[derive(Clone, Debug, PartialEq, Eq)]
pub struct Sign1Core {
    pub alg: Option<AlgorithmLabel>,
    pub signature: Vec<u8>,
}

/// What a [`Sign1Core`] holds.
pub struct CoreModel {
    pub alg: Option<AlgorithmLabelModel>,
    pub signature: Seq<u8>,
}

impl View for Sign1Core {
    type V = CoreModel;

    open spec fn view(&self) -> CoreModel {
        CoreModel {
            alg: match self.alg {
                Some(alg) => Some(alg@),
                None => None,
            },
            signature: self.signature@,
        }
    }
}

/// Labels, one for each header parameter.
pub open spec fn labels(list: Seq<HeaderLabel>) -> Seq<HeaderLabelModel> {
    list.map_values(|label: HeaderLabel| label@)
}

/// Values, one for each header parameter.
pub open spec fn values(list: Seq<HeaderValue>) -> Seq<HeaderValueModel> {
    list.map_values(|value: HeaderValue| value@)
}

/// The algorithm and the signature of the structure encoded in `cose`.
pub uninterp spec fn core_of(cose: Seq<u8>) -> Option<CoreModel>;

/// The labels of the other parameters in the protected header of the structure encoded in `cose`.
pub uninterp spec fn protected_labels_of(cose: Seq<u8>) -> Option<Seq<HeaderLabelModel>>;

/// The labels of the other parameters in the unprotected header of the structure encoded in `cose`.
pub uninterp spec fn unprotected_labels_of(cose: Seq<u8>) -> Option<Seq<HeaderLabelModel>>;

/// The values of the other parameters in the protected header of the structure encoded in `cose`.
pub uninterp spec fn protected_values_of(cose: Seq<u8>) -> Option<Seq<HeaderValueModel>>;

/// The values of the other parameters in the unprotected header of the structure encoded in `cose`.
pub uninterp spec fn unprotected_values_of(cose: Seq<u8>) -> Option<Seq<HeaderValueModel>>;

/// The CBOR encoding of the value of an unprotected parameter of the structure encoded in `cose`.
pub uninterp spec fn parameter_cbor_of(cose: Seq<u8>, index: usize) -> Option<Seq<u8>>;

/// What the signature of the structure encoded in `cose` is made over.
pub uninterp spec fn tbs_of(cose: Seq<u8>, payload: Seq<u8>, aad: Seq<u8>) -> Option<Seq<u8>>;

/// `coset::CoseSign1::from_tagged_slice`: the algorithm in the protected header, by its number
/// (`coset::iana::EnumI64::to_i64`) where it is an assigned one, and the signature.
#[verifier::external_body]
pub(crate) fn decode_core(cose: &[u8]) -> (r: Option<Sign1Core>)
    ensures
        match r {
            Some(core) => core_of(cose@) == Some(core@),
            None => core_of(cose@) is None,
        },
{
    let sign1 = CoseSign1Data::from_tagged_slice(cose).ok()?;
    let alg = sign1.protected.header.alg.map(|alg| match alg {
        RegisteredLabelWithPrivate::PrivateUse(n) => AlgorithmLabel::PrivateUse(n),
        RegisteredLabelWithPrivate::Assigned(a) => AlgorithmLabel::Assigned(a.to_i64()),
        RegisteredLabelWithPrivate::Text(text) => AlgorithmLabel::Text(text),
    });
    Some(Sign1Core { alg, signature: sign1.signature })
}

/// `coset::CoseSign1::from_tagged_slice`: the labels in the `rest` of the protected header.
#[verifier::external_body]
pub(crate) fn decode_protected_labels(cose: &[u8]) -> (r: Option<Vec<HeaderLabel>>)
    ensures
        r is Some <==> core_of(cose@) is Some,
        match r {
            Some(list) => protected_labels_of(cose@) == Some(labels(list@)),
            None => protected_labels_of(cose@) is None,
        },
{
    let sign1 = CoseSign1Data::from_tagged_slice(cose).ok()?;
    Some(sign1.protected.header.rest.into_iter().map(|parameter| match parameter.0 {
        Label::Int(n) => HeaderLabel::Int(n),
        Label::Text(text) => HeaderLabel::Text(text),
    }).collect())
}

/// `coset::CoseSign1::from_tagged_slice`: the labels in the `rest` of the unprotected header.
#[verifier::external_body]
pub(crate) fn decode_unprotected_labels(cose: &[u8]) -> (r: Option<Vec<HeaderLabel>>)
    ensures
        r is Some <==> core_of(cose@) is Some,
        match r {
            Some(list) => unprotected_labels_of(cose@) == Some(labels(list@)),
            None => unprotected_labels_of(cose@) is None,
        },
{
    let sign1 = CoseSign1Data::from_tagged_slice(cose).ok()?;
    Some(sign1.unprotected.rest.into_iter().map(|parameter| match parameter.0 {
        Label::Int(n) => HeaderLabel::Int(n),
        Label::Text(text) => HeaderLabel::Text(text),
    }).collect())
}

/// `coset::CoseSign1::from_tagged_slice`: the values in the `rest` of the protected header, as
/// many as there are labels.
#[verifier::external_body]
pub(crate) fn decode_protected_values(cose: &[u8]) -> (r: Option<Vec<HeaderValue>>)
    ensures
        r is Some <==> core_of(cose@) is Some,
        match r {
            Some(list) => {
                &&& protected_values_of(cose@) == Some(values(list@))
                &&& protected_labels_of(cose@) matches Some(ls) && ls.len() == list@.len()
            },
            None => protected_values_of(cose@) is None,
        },
{
    let sign1 = CoseSign1Data::from_tagged_slice(cose).ok()?;
    let array = |a: Vec<Value>| ByteStrings {
        items: a.into_iter().map(|item| item.into_bytes().ok()).collect() };
    Some(sign1.protected.header.rest.into_iter().map(|parameter| match parameter.1 {
        Value::Bytes(bytes) => HeaderValue::Bytes(bytes),
        Value::Array(a) => HeaderValue::Array(array(a)),
        Value::Map(pairs) => HeaderValue::Pairs(pairs.into_iter().map(|(k, v)| MapPair(
            k.into_text().ok(), v.into_array().ok().map(array))).collect()),
        _ => HeaderValue::Other,
    }).collect())
}

/// `coset::CoseSign1::from_tagged_slice`: the values in the `rest` of the unprotected header, as
/// many as there are labels.
#[verifier::external_body]
pub(crate) fn decode_unprotected_values(cose: &[u8]) -> (r: Option<Vec<HeaderValue>>)
    ensures
        r is Some <==> core_of(cose@) is Some,
        match r {
            Some(list) => {
                &&& unprotected_values_of(cose@) == Some(values(list@))
                &&& unprotected_labels_of(cose@) matches Some(ls) && ls.len() == list@.len()
            },
            None => unprotected_values_of(cose@) is None,
        },
{
    let sign1 = CoseSign1Data::from_tagged_slice(cose).ok()?;
    let array = |a: Vec<Value>| ByteStrings {
        items: a.into_iter().map(|item| item.into_bytes().ok()).collect() };
    Some(sign1.unprotected.rest.into_iter().map(|parameter| match parameter.1 {
        Value::Bytes(bytes) => HeaderValue::Bytes(bytes),
        Value::Array(a) => HeaderValue::Array(array(a)),
        Value::Map(pairs) => HeaderValue::Pairs(pairs.into_iter().map(|(k, v)| MapPair(
            k.into_text().ok(), v.into_array().ok().map(array))).collect()),
        _ => HeaderValue::Other,
    }).collect())
}

/// `serde_cbor::to_vec` on the value of an unprotected parameter. None where there is no such
/// parameter or the value cannot be encoded.
#[verifier::external_body]
pub(crate) fn parameter_cbor(cose: &[u8], index: usize) -> (r: Option<Vec<u8>>)
    ensures
        match r {
            Some(bytes) => parameter_cbor_of(cose@, index) == Some(bytes@),
            None => parameter_cbor_of(cose@, index) is None,
        },
{
    let sign1 = CoseSign1Data::from_tagged_slice(cose).ok()?;
    serde_cbor::to_vec(&sign1.unprotected.rest.get(index)?.1).ok()
}

/// `coset::CoseSign1::tbs_data`, with `payload` as the payload. There is a structure to be decoded
/// where its algorithm and signature are.
#[verifier::external_body]
pub(crate) fn to_be_signed(cose: &[u8], payload: &[u8], aad: &[u8]) -> (r: Option<Vec<u8>>)
    ensures
        r is Some <==> core_of(cose@) is Some,
        match r {
            Some(bytes) => tbs_of(cose@, payload@, aad@) == Some(bytes@),
            None => tbs_of(cose@, payload@, aad@) is None,
        },
{
    let mut sign1 = CoseSign1Data::from_tagged_slice(cose).ok()?;
    sign1.payload = Some(payload.to_vec());
    Some(sign1.tbs_data(aad))
}

/// A parameter of a header.
#[derive(Clone, Debug, PartialEq, Eq)]
pub struct Parameter {
    pub label: HeaderLabel,
    pub value: HeaderValue,
}

/// The parameters of a header, but for those that are read on their own.
#[derive(Clone, Debug, PartialEq, Eq)]
pub struct Header {
    pub parameters: Vec<Parameter>,
}

/// What a [`Header`] holds.
#[verifier::ext_equal]
pub struct HeaderModel {
    pub labels: Seq<HeaderLabelModel>,
    pub values: Seq<HeaderValueModel>,
}

impl View for Header {
    type V = HeaderModel;

    open spec fn view(&self) -> HeaderModel {
        HeaderModel {
            labels: self.parameters@.map_values(|p: Parameter| p.label@),
            values: self.parameters@.map_values(|p: Parameter| p.value@),
        }
    }
}

/// A COSE_Sign1 structure.
#[derive(Clone, Debug, PartialEq, Eq)]
pub struct CoseSign1 {
    pub core: Sign1Core,
    pub protected: Header,
    pub unprotected: Header,
    pub payload: Vec<u8>,
}

/// What a [`CoseSign1`] holds.
#[verifier::ext_equal]
pub struct Sign1Model {
    pub core: CoreModel,
    pub protected: HeaderModel,
    pub unprotected: HeaderModel,
    pub payload: Seq<u8>,
}

impl View for CoseSign1 {
    type V = Sign1Model;

    open spec fn view(&self) -> Sign1Model {
        Sign1Model {
            core: self.core@,
            protected: self.protected@,
            unprotected: self.unprotected@,
            payload: self.payload@,
        }
    }
}

/// The structure encoded in `cose`, with `data` as its payload.
pub open spec fn sign1_of(cose: Seq<u8>, data: Seq<u8>) -> Option<Sign1Model> {
    match (
        core_of(cose),
        protected_labels_of(cose),
        protected_values_of(cose),
        unprotected_labels_of(cose),
        unprotected_values_of(cose),
    ) {
        (Some(core), Some(pl), Some(pv), Some(ul), Some(uv)) => Some(
            Sign1Model {
                core,
                protected: HeaderModel { labels: pl, values: pv },
                unprotected: HeaderModel { labels: ul, values: uv },
                payload: data,
            },
        ),
        _ => None,
    }
}

/// The header with the given labels and values.
fn header(labels_given: Vec<HeaderLabel>, values_given: Vec<HeaderValue>) -> (r: Header)
    requires
        labels_given@.len() == values_given@.len(),
    ensures
        r@ == (HeaderModel { labels: labels(labels_given@), values: values(values_given@) }),
{
    let ghost ls = labels_given@;
    let ghost vs = values_given@;
    let mut values_left: Vec<HeaderValue> = Vec::new();
    let mut values_taken = values_given;
    // so that the first value is the last
    while values_taken.len() > 0
        invariant
            values_taken@.len() <= vs.len(),
            values_taken@ == vs.take(values_taken@.len() as int),
            values_left@ == vs.skip(values_taken@.len() as int).reverse(),
        decreases values_taken@.len(),
    {
        if let Some(value) = values_taken.pop() {
            values_left.push(value);
        }
        proof {
            let n = values_taken@.len() as int;
            assert(values_taken@ =~= vs.take(n));
            assert(values_left@ =~= vs.skip(n).reverse());
        }
    }
    let mut parameters: Vec<Parameter> = Vec::new();
    for label in it: labels_given.into_iter()
        invariant
            it.seq() == ls,
            ls.len() == vs.len(),
            parameters@.len() == it.index(),
            values_left@ == vs.reverse().take(vs.len() - it.index()),
            forall|i: int|
                0 <= i < it.index() ==> (#[trigger] parameters@[i]).label == ls[i]
                    && parameters@[i].value == vs[i],
    {
        proof {
            assert(ls[it.index()] == label);
            assert(values_left@.last() == vs[it.index()]);
        }
        if let Some(value) = values_left.pop() {
            parameters.push(Parameter { label, value });
        }
        proof {
            assert(values_left@ =~= vs.reverse().take(vs.len() - it.index() - 1));
        }
    }
    let made = Header { parameters };
    proof {
        assert(made@.labels =~= labels(ls));
        assert(made@.values =~= values(vs));
    }
    made
}

fn read_sign1(cose_bytes: &[u8], data: &[u8]) -> (r: Option<CoseSign1>)
    ensures
        r is Some <==> core_of(cose_bytes@) is Some,
        match r {
            Some(sign1) => sign1_of(cose_bytes@, data@) == Some(sign1@),
            None => sign1_of(cose_bytes@, data@) is None,
        },
{
    let core = decode_core(cose_bytes)?;
    let protected_labels = decode_protected_labels(cose_bytes)?;
    let protected_values = decode_protected_values(cose_bytes)?;
    let unprotected_labels = decode_unprotected_labels(cose_bytes)?;
    let unprotected_values = decode_unprotected_values(cose_bytes)?;
    let mut payload: Vec<u8> = Vec::new();
    put_bytes(&mut payload, data);
    proof {
        assert(payload@ =~= data@);
    }
    Some(
        CoseSign1 {
            core,
            protected: header(protected_labels, protected_values),
            unprotected: header(unprotected_labels, unprotected_values),
            payload,
        },
    )
}

/// What the log gets where a structure cannot be decoded.
pub open spec fn undecodable(log: StatusModel) -> StatusModel {
    log.with(
        failure(
            "could not deserialize signature",
            "get_cose_sign1",
            Some(ValidationStatus::ClaimSignatureMismatch),
            Error::InvalidCoseSignature,
        ),
    )
}

/// Decodes a structure and restores its payload.
pub fn get_cose_sign1(cose_bytes: &[u8], data: &[u8], validation_log: &mut StatusTracker) -> (r:
    Result<CoseSign1, Error>)
    ensures
        r is Ok <==> core_of(cose_bytes@) is Some,
        match r {
            Ok(sign1) => {
                &&& sign1_of(cose_bytes@, data@) == Some(sign1@)
                &&& final(validation_log)@ == old(validation_log)@
            },
            Err(err) => {
                &&& sign1_of(cose_bytes@, data@) is None
                &&& err == Error::CoseSignature
                &&& final(validation_log)@ == undecodable(old(validation_log)@)
            },
        },
{
    match read_sign1(cose_bytes, data) {
        Some(sign1) => Ok(sign1),
        None => {
            validation_log.failure_no_throw(
                "could not deserialize signature",
                "get_cose_sign1",
                Some(ValidationStatus::ClaimSignatureMismatch),
                Error::InvalidCoseSignature,
            );
            Err(Error::CoseSignature)
        },
    }
}

/// The signature algorithms that are supported.
#[derive(Clone, Copy, Debug, PartialEq, Eq, Structural)]
pub enum SigningAlg {
    Es256,
    Es384,
    Es512,
    Ps256,
    Ps384,
    Ps512,
    Ed25519,
}

/// The algorithm that a number stands for.
pub open spec fn numbered_alg(n: i64) -> Option<SigningAlg> {
    if n == -39 {
        Some(SigningAlg::Ps512)
    } else if n == -38 {
        Some(SigningAlg::Ps384)
    } else if n == -37 {
        Some(SigningAlg::Ps256)
    } else if n == -36 {
        Some(SigningAlg::Es512)
    } else if n == -35 {
        Some(SigningAlg::Es384)
    } else if n == -7 {
        Some(SigningAlg::Es256)
    } else if n == -8 {
        Some(SigningAlg::Ed25519)
    } else {
        None
    }
}

/// The algorithm that a name stands for.
pub open spec fn named_alg(name: Seq<char>) -> Option<SigningAlg> {
    if name == "es256"@ {
        Some(SigningAlg::Es256)
    } else if name == "es384"@ {
        Some(SigningAlg::Es384)
    } else if name == "es512"@ {
        Some(SigningAlg::Es512)
    } else if name == "ps256"@ {
        Some(SigningAlg::Ps256)
    } else if name == "ps384"@ {
        Some(SigningAlg::Ps384)
    } else if name == "ps512"@ {
        Some(SigningAlg::Ps512)
    } else if name == "ed25519"@ {
        Some(SigningAlg::Ed25519)
    } else {
        None
    }
}

/// The algorithm that a structure is signed with, where it is supported.
pub open spec fn signing_alg(alg: Option<AlgorithmLabelModel>) -> Option<SigningAlg> {
    match alg {
        Some(AlgorithmLabelModel::PrivateUse(n)) => numbered_alg(n),
        Some(AlgorithmLabelModel::Assigned(n)) => numbered_alg(n),
        Some(AlgorithmLabelModel::Text(name)) => named_alg(name),
        None => None,
    }
}

fn alg_by_number(n: i64) -> (r: Option<SigningAlg>)
    ensures
        r == numbered_alg(n),
{
    if n == -39 {
        Some(SigningAlg::Ps512)
    } else if n == -38 {
        Some(SigningAlg::Ps384)
    } else if n == -37 {
        Some(SigningAlg::Ps256)
    } else if n == -36 {
        Some(SigningAlg::Es512)
    } else if n == -35 {
        Some(SigningAlg::Es384)
    } else if n == -7 {
        Some(SigningAlg::Es256)
    } else if n == -8 {
        Some(SigningAlg::Ed25519)
    } else {
        None
    }
}

fn alg_by_name(name: &str) -> (r: Option<SigningAlg>)
    ensures
        r == named_alg(name@),
{
    if str_eq(name, "es256") {
        Some(SigningAlg::Es256)
    } else if str_eq(name, "es384") {
        Some(SigningAlg::Es384)
    } else if str_eq(name, "es512") {
        Some(SigningAlg::Es512)
    } else if str_eq(name, "ps256") {
        Some(SigningAlg::Ps256)
    } else if str_eq(name, "ps384") {
        Some(SigningAlg::Ps384)
    } else if str_eq(name, "ps512") {
        Some(SigningAlg::Ps512)
    } else if str_eq(name, "ed25519") {
        Some(SigningAlg::Ed25519)
    } else {
        None
    }
}

/// The algorithm that a structure is signed with.
pub fn get_signing_alg(cs1: &CoseSign1) -> (r: Result<SigningAlg, Error>)
    ensures
        match signing_alg(cs1@.core.alg) {
            Some(alg) => r == Ok::<SigningAlg, Error>(alg),
            None => r == Err::<SigningAlg, Error>(Error::CoseSignatureAlgorithmNotSupported),
        },
{
    let found: Option<SigningAlg> = match &cs1.core.alg {
        Some(AlgorithmLabel::PrivateUse(n)) => alg_by_number(*n),
        Some(AlgorithmLabel::Assigned(n)) => alg_by_number(*n),
        Some(AlgorithmLabel::Text(name)) => alg_by_name(name.as_str()),
        None => None,
    };
    match found {
        Some(alg) => Ok(alg),
        None => Err(Error::CoseSignatureAlgorithmNotSupported),
    }
}

/// The number of the header parameter for a chain of certificates.
pub const X5CHAIN_LABEL: i64 = 33;

/// Whether a parameter has the given name, or the number for a chain of certificates where that
/// is allowed.
pub open spec fn is_label(label: HeaderLabelModel, name: Seq<char>, chain_number: bool) -> bool {
    match label {
        HeaderLabelModel::Text(text) => text == name,
        HeaderLabelModel::Int(n) => chain_number && n == X5CHAIN_LABEL,
    }
}

/// Whether the parameter at `i` is the first with the given label.
pub open spec fn is_first(h: HeaderModel, name: Seq<char>, chain_number: bool, i: int) -> bool {
    &&& 0 <= i < h.labels.len()
    &&& is_label(h.labels[i], name, chain_number)
    &&& forall|k: int| 0 <= k < i ==> !is_label(#[trigger] h.labels[k], name, chain_number)
}

/// The place of the first parameter with the given label.
pub open spec fn first_label(h: HeaderModel, name: Seq<char>, chain_number: bool) -> Option<int> {
    if exists|i: int| is_first(h, name, chain_number, i) {
        Some(choose|i: int| is_first(h, name, chain_number, i))
    } else {
        None
    }
}

/// The place of the first parameter with the given label.
fn find_label(h: &Header, name: &str, chain_number: bool) -> (r: Option<usize>)
    ensures
        match r {
            Some(i) => i < h.parameters@.len() && first_label(h@, name@, chain_number) == Some(
                i as int,
            ),
            None => first_label(h@, name@, chain_number) is None,
        },
{
    let ghost m = h@;
    let mut i: usize = 0;
    while i < h.parameters.len()
        invariant
            i <= h.parameters@.len(),
            m == h@,
            m.labels.len() == h.parameters@.len(),
            forall|k: int| 0 <= k < i ==> !is_label(#[trigger] m.labels[k], name@, chain_number),
        decreases h.parameters@.len() - i,
    {
        proof {
            assert(m.labels[i as int] == h.parameters@[i as int].label@);
        }
        let found: bool = match &h.parameters[i].label {
            HeaderLabel::Text(text) => str_eq(text.as_str(), name),
            HeaderLabel::Int(n) => chain_number && *n == X5CHAIN_LABEL,
        };
        if found {
            proof {
                assert(is_first(m, name@, chain_number, i as int));
                let j = choose|j: int| is_first(m, name@, chain_number, j);
                assert(j == i) by {
                    if j < i {
                        assert(!is_label(m.labels[j], name@, chain_number));
                    } else if i < j {
                        assert(!is_label(m.labels[i as int], name@, chain_number));
                    }
                }
            }
            return Some(i);
        }
        i = i + 1;
    }
    None
}

/// The byte strings of an array, in order.
pub open spec fn byte_strings(items: Seq<Option<Seq<u8>>>) -> Seq<Seq<u8>>
    decreases items.len(),
{
    if items.len() == 0 {
        Seq::empty()
    } else {
        match items.last() {
            Some(bytes) => byte_strings(items.drop_last()).push(bytes),
            None => byte_strings(items.drop_last()),
        }
    }
}

/// The contents of a list of byte strings.
pub open spec fn contents(list: Seq<Vec<u8>>) -> Seq<Seq<u8>> {
    list.map_values(|bytes: Vec<u8>| bytes@)
}

/// The certificates in a parameter: a byte string, or an array of which at least one item is a
/// byte string. `empty` is the error where none is.
pub open spec fn certs_in(value: HeaderValueModel, empty: Error) -> Result<Seq<Seq<u8>>, Error> {
    match value {
        HeaderValueModel::Array(items) => if byte_strings(items).len() == 0 {
            Err(empty)
        } else {
            Ok(byte_strings(items))
        },
        HeaderValueModel::Bytes(bytes) => Ok(seq![bytes]),
        _ => Err(Error::CoseX5ChainMissing),
    }
}

fn copy_bytes(bytes: &Vec<u8>) -> (r: Vec<u8>)
    ensures
        r@ == bytes@,
{
    let mut copy: Vec<u8> = Vec::new();
    put_bytes(&mut copy, bytes.as_slice());
    proof {
        assert(copy@ =~= bytes@);
    }
    copy
}

fn read_byte_strings(array: &ByteStrings) -> (r: Vec<Vec<u8>>)
    ensures
        contents(r@) == byte_strings(array@),
{
    let mut list: Vec<Vec<u8>> = Vec::new();
    let ghost all = array@;
    let mut i: usize = 0;
    proof {
        assert(contents(list@) =~= byte_strings(all.take(0)));
    }
    while i < array.items.len()
        invariant
            i <= array.items@.len(),
            all == array@,
            all.len() == array.items@.len(),
            contents(list@) == byte_strings(all.take(i as int)),
        decreases array.items@.len() - i,
    {
        let ghost before = contents(list@);
        proof {
            assert(all.take(i + 1).drop_last() =~= all.take(i as int));
            assert(all.take(i + 1).last() == all[i as int]);
        }
        if let Some(bytes) = &array.items[i] {
            let copy = copy_bytes(bytes);
            list.push(copy);
            proof {
                assert(contents(list@) =~= before.push(bytes@));
            }
        }
        i = i + 1;
    }
    proof {
        assert(all.take(i as int) =~= all);
    }
    list
}

fn read_certs(value: &HeaderValue, empty: Error) -> (r: Result<Vec<Vec<u8>>, Error>)
    ensures
        match r {
            Ok(certs) => certs@.len() > 0 && certs_in(value@, empty) == Ok::<
                Seq<Seq<u8>>,
                Error,
            >(contents(certs@)),
            Err(err) => certs_in(value@, empty) == Err::<Seq<Seq<u8>>, Error>(err),
        },
{
    match value {
        HeaderValue::Array(array) => {
            let certs = read_byte_strings(array);
            if certs.len() == 0 {
                Err(empty)
            } else {
                Ok(certs)
            }
        },
        HeaderValue::Bytes(bytes) => {
            let copy = copy_bytes(bytes);
            let certs: Vec<Vec<u8>> = vec![copy];
            proof {
                assert(contents(certs@) =~= seq![bytes@]);
            }
            Ok(certs)
        },
        _ => Err(Error::CoseX5ChainMissing),
    }
}

/// The certificates in the unprotected header.
pub open spec fn unprotected_certs(m: Sign1Model) -> Result<Seq<Seq<u8>>, Error> {
    match first_label(m.unprotected, "x5chain"@, false) {
        Some(i) => certs_in(m.unprotected.values[i], Error::CoseMissingKey),
        None => Err(Error::CoseX5ChainMissing),
    }
}

/// The certificates of a structure: those in the protected header, by name or by number, else
/// those in the unprotected header. They may not be in both.
pub open spec fn sign_certs(m: Sign1Model) -> Result<Seq<Seq<u8>>, Error> {
    match first_label(m.protected, "x5chain"@, true) {
        Some(i) => if unprotected_certs(m) is Ok {
            Err(Error::CoseVerifier)
        } else {
            certs_in(m.protected.values[i], Error::CoseX5ChainMissing)
        },
        None => unprotected_certs(m),
    }
}

/// The certificates in the unprotected header.
pub fn get_unprotected_header_certs(sign1: &CoseSign1) -> (r: Result<Vec<Vec<u8>>, Error>)
    ensures
        match r {
            Ok(certs) => certs@.len() > 0 && unprotected_certs(sign1@) == Ok::<
                Seq<Seq<u8>>,
                Error,
            >(contents(certs@)),
            Err(err) => unprotected_certs(sign1@) == Err::<Seq<Seq<u8>>, Error>(err),
        },
{
    match find_label(&sign1.unprotected, "x5chain", false) {
        Some(i) => {
            proof {
                assert(sign1@.unprotected.values[i as int] == sign1.unprotected.parameters@[i as int].value@);
            }
            read_certs(&sign1.unprotected.parameters[i].value, Error::CoseMissingKey)
        },
        None => Err(Error::CoseX5ChainMissing),
    }
}

/// The certificates of a structure, that of the signer first. There is at least one.
pub fn get_sign_certs(sign1: &CoseSign1) -> (r: Result<Vec<Vec<u8>>, Error>)
    ensures
        match r {
            Ok(certs) => certs@.len() > 0 && sign_certs(sign1@) == Ok::<Seq<Seq<u8>>, Error>(
                contents(certs@),
            ),
            Err(err) => sign_certs(sign1@) == Err::<Seq<Seq<u8>>, Error>(err),
        },
{
    match find_label(&sign1.protected, "x5chain", true) {
        Some(i) => {
            // make sure there are no certs in the legacy unprotected header
            if get_unprotected_header_certs(sign1).is_ok() {
                return Err(Error::CoseVerifier);
            }
            proof {
                assert(sign1@.protected.values[i as int] == sign1.protected.parameters@[i as int].value@);
            }
            read_certs(&sign1.protected.parameters[i].value, Error::CoseX5ChainMissing)
        },
        // check the unprotected header if necessary
        None => get_unprotected_header_certs(sign1),
    }
}

/// The certificate of the signer.
pub fn get_sign_cert(sign1: &CoseSign1) -> (r: Result<Vec<u8>, Error>)
    ensures
        match r {
            Ok(cert) => sign_certs(sign1@) matches Ok(certs) && certs.len() > 0 && cert@
                == certs[0],
            Err(err) => sign_certs(sign1@) == Err::<Seq<Seq<u8>>, Error>(err),
        },
{
    let certs = get_sign_certs(sign1)?;
    proof {
        assert(contents(certs@)[0] == certs@[0]@);
    }
    Ok(copy_bytes(&certs[0]))
}

/// Whether a pair of a map holds the responses of an OCSP responder, of which the first is a byte
/// string.
pub open spec fn is_ocsp_pair(p: MapPairModel) -> bool {
    p.key == Some("ocspVals"@) && (p.value matches Some(items) && items.len() > 0 && items[0]
        is Some)
}

/// The first response of an OCSP responder in a map.
pub open spec fn ocsp_in(pairs: Seq<MapPairModel>) -> Option<Seq<u8>>
    decreases pairs.len(),
{
    if pairs.len() == 0 {
        None
    } else if is_ocsp_pair(pairs[0]) {
        pairs[0].value->0[0]
    } else {
        ocsp_in(pairs.drop_first())
    }
}

/// The response of an OCSP responder that a structure carries.
pub open spec fn ocsp_der(m: Sign1Model) -> Option<Seq<u8>> {
    match first_label(m.unprotected, "rVals"@, false) {
        Some(i) => match m.unprotected.values[i] {
            HeaderValueModel::Pairs(pairs) => ocsp_in(pairs),
            _ => None,
        },
        None => None,
    }
}

fn read_ocsp(pairs: &Vec<MapPair>) -> (r: Option<Vec<u8>>)
    ensures
        match r {
            Some(der) => ocsp_in(pairs@.map_values(|p: MapPair| p@)) == Some(der@),
            None => ocsp_in(pairs@.map_values(|p: MapPair| p@)) is None,
        },
{
    let ghost all = pairs@.map_values(|p: MapPair| p@);
    let mut i: usize = 0;
    proof {
        assert(all.skip(0) =~= all);
    }
    while i < pairs.len()
        invariant
            i <= pairs@.len(),
            all == pairs@.map_values(|p: MapPair| p@),
            ocsp_in(all) == ocsp_in(all.skip(i as int)),
        decreases pairs@.len() - i,
    {
        let pair: &MapPair = &pairs[i];
        let ghost rest = all.skip(i as int);
        proof {
            assert(rest[0] == pair@);
            assert(rest.drop_first() =~= all.skip(i + 1));
        }
        let named: bool = match &pair.0 {
            Some(key) => str_eq(key.as_str(), "ocspVals"),
            None => false,
        };
        if named {
            if let Some(array) = &pair.1 {
                if array.items.len() > 0 {
                    proof {
                        assert(array@[0] == (match array.items@[0] {
                            Some(bytes) => Some(bytes@),
                            None => None,
                        }));
                    }
                    if let Some(der) = &array.items[0] {
                        return Some(copy_bytes(der));
                    }
                }
            }
        }
        i = i + 1;
    }
    proof {
        assert(all.skip(i as int) =~= Seq::empty());
    }
    None
}

/// The response of an OCSP responder that a structure carries.
pub fn get_ocsp_der(sign1: &CoseSign1) -> (r: Option<Vec<u8>>)
    ensures
        match r {
            Some(der) => ocsp_der(sign1@) == Some(der@),
            None => ocsp_der(sign1@) is None,
        },
{
    match find_label(&sign1.unprotected, "rVals", false) {
        Some(i) => {
            proof {
                assert(sign1@.unprotected.values[i as int] == sign1.unprotected.parameters@[i as int].value@);
            }
            match &sign1.unprotected.parameters[i].value {
                HeaderValue::Pairs(pairs) => read_ocsp(pairs),
                _ => None,
            }
        },
        None => None,
    }
}

/// The place of the unprotected parameter that holds a time stamp.
pub open spec fn timestamp_place(m: Sign1Model) -> Option<int> {
    first_label(m.unprotected, "sigTst"@, false)
}

/// The place of the unprotected parameter that holds a time stamp.
pub fn find_timestamp(sign1: &CoseSign1) -> (r: Option<usize>)
    ensures
        match r {
            Some(i) => timestamp_place(sign1@) == Some(i as int),
            None => timestamp_place(sign1@) is None,
        },
{
    find_label(&sign1.unprotected, "sigTst", false)
}

} // verus!
