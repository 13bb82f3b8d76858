//! The raw event boundary: the undecoded tag/text events a streaming
//! tokenizer hands over, and the classifier that turns each of them into
//! one `XmlElement`, decoding every byte payload as UTF-8 and failing
//! with a typed error (never a panic) on invalid sequences.

use vstd::prelude::*;

verus! {

use crate::xml::model::{AttrModel, ElemModel, ErrorModel};
use crate::xml::{attrs_view, XmlAttribute, XmlElement, XmlError};
use vstd::utf8::{decode_utf8, valid_utf8};

/// One attribute as the tokenizer hands it over: undecoded name and
/// value bytes.
#[derive(Debug)]
pub struct RawAttribute {
    pub name: Vec<u8>,
    pub value: Vec<u8>,
}

/// Ghost mirror of `RawAttribute`.
pub struct RawAttrModel {
    pub name: Seq<u8>,
    pub value: Seq<u8>,
}

impl View for RawAttribute {
    type V = RawAttrModel;

    open spec fn view(&self) -> RawAttrModel {
        RawAttrModel { name: self.name@, value: self.value@ }
    }
}

/// The view of a sequence of raw attributes, pointwise.
pub open spec fn raw_attrs_view(s: Seq<RawAttribute>) -> Seq<RawAttrModel> {
    s.map_values(|a: RawAttribute| a@)
}

/// One raw parse event: what a streaming tokenizer reports before
/// classification, with every payload as undecoded bytes.
#[derive(Debug)]
pub enum RawEvent {
    /// A start tag: name bytes and attributes.
    Open(Vec<u8>, Vec<RawAttribute>),
    /// A self-closing tag: name bytes and attributes.
    Empty(Vec<u8>, Vec<RawAttribute>),
    /// Character content between tags.
    Text(Vec<u8>),
    /// An end tag: name bytes.
    Close(Vec<u8>),
    /// Any other event (a comment, a declaration, a processing
    /// instruction), as its raw content bytes.
    Other(Vec<u8>),
    /// End of the token stream.
    Eof,
}

/// Ghost mirror of `RawEvent`.
pub enum RawEventModel {
    Open(Seq<u8>, Seq<RawAttrModel>),
    Empty(Seq<u8>, Seq<RawAttrModel>),
    Text(Seq<u8>),
    Close(Seq<u8>),
    Other(Seq<u8>),
    Eof,
}

impl View for RawEvent {
    type V = RawEventModel;

    open spec fn view(&self) -> RawEventModel {
        match self {
            RawEvent::Open(n, a) => RawEventModel::Open(n@, raw_attrs_view(a@)),
            RawEvent::Empty(n, a) => RawEventModel::Empty(n@, raw_attrs_view(a@)),
            RawEvent::Text(t) => RawEventModel::Text(t@),
            RawEvent::Close(n) => RawEventModel::Close(n@),
            RawEvent::Other(b) => RawEventModel::Other(b@),
            RawEvent::Eof => RawEventModel::Eof,
        }
    }
}

/// The view of a sequence of raw events, pointwise.
pub open spec fn raw_events_view(s: Seq<RawEvent>) -> Seq<RawEventModel> {
    s.map_values(|e: RawEvent| e@)
}

/// Classification of an attribute list: every name and value decoded as
/// UTF-8, in order, name before value; the first payload that is not
/// valid UTF-8 is the error.
pub open spec fn spec_classify_attrs(attrs: Seq<RawAttrModel>) -> Result<Seq<AttrModel>, Seq<u8>>
    decreases attrs.len(),
{
    if attrs.len() == 0 {
        Ok(Seq::empty())
    } else if !valid_utf8(attrs[0].name) {
        Err(attrs[0].name)
    } else if !valid_utf8(attrs[0].value) {
        Err(attrs[0].value)
    } else {
        match spec_classify_attrs(attrs.drop_first()) {
            Ok(rest) => Ok(
                seq![
                    AttrModel {
                        name: decode_utf8(attrs[0].name),
                        value: decode_utf8(attrs[0].value),
                    },
                ] + rest,
            ),
            Err(b) => Err(b),
        }
    }
}

/// Classification of one raw event: the element it becomes, with every
/// byte payload decoded as UTF-8, or the first payload that is not
/// valid UTF-8, as a decoding error.
pub open spec fn spec_classify(ev: RawEventModel) -> Result<ElemModel, ErrorModel> {
    match ev {
        RawEventModel::Open(nb, attrs) => if !valid_utf8(nb) {
            Err(ErrorModel::DecodeError(nb))
        } else {
            match spec_classify_attrs(attrs) {
                Ok(a) => Ok(ElemModel::OpenTag(decode_utf8(nb), a)),
                Err(b) => Err(ErrorModel::DecodeError(b)),
            }
        },
        RawEventModel::Empty(nb, attrs) => if !valid_utf8(nb) {
            Err(ErrorModel::DecodeError(nb))
        } else {
            match spec_classify_attrs(attrs) {
                Ok(a) => Ok(ElemModel::EmptyTag(decode_utf8(nb), a)),
                Err(b) => Err(ErrorModel::DecodeError(b)),
            }
        },
        RawEventModel::Text(tb) => if !valid_utf8(tb) {
            Err(ErrorModel::DecodeError(tb))
        } else {
            Ok(ElemModel::Text(decode_utf8(tb)))
        },
        RawEventModel::Close(nb) => if !valid_utf8(nb) {
            Err(ErrorModel::DecodeError(nb))
        } else {
            Ok(ElemModel::ElementEnd(decode_utf8(nb)))
        },
        RawEventModel::Other(b) => if !valid_utf8(b) {
            Err(ErrorModel::DecodeError(b))
        } else {
            Ok(ElemModel::SomethingElse(decode_utf8(b)))
        },
        RawEventModel::Eof => Ok(ElemModel::End),
    }
}

/// The view of a classification result, pointwise on either side.
pub open spec fn elem_result_view(r: Result<XmlElement, XmlError>) -> Result<
    ElemModel,
    ErrorModel,
> {
    match r {
        Ok(el) => Ok(el@),
        Err(e) => Err(e@),
    }
}

/// What the flat document builder produces from a complete event
/// sequence: every event classified in order and kept, stopping without
/// keeping it at the first end-of-stream event, and failing with the
/// first classification error.
pub open spec fn spec_build(events: Seq<RawEventModel>) -> Result<Seq<ElemModel>, ErrorModel>
    decreases events.len(),
{
    if events.len() == 0 {
        Ok(Seq::empty())
    } else {
        match spec_classify(events[0]) {
            Err(e) => Err(e),
            Ok(el) => if el is End {
                Ok(Seq::empty())
            } else {
                match spec_build(events.drop_first()) {
                    Ok(rest) => Ok(seq![el] + rest),
                    Err(e) => Err(e),
                }
            },
        }
    }
}

/// A built document never retains the end-of-stream sentinel: the
/// builder stops at the first end-of-stream event without keeping it.
pub proof fn lemma_build_no_end(events: Seq<RawEventModel>)
    ensures
        match spec_build(events) {
            Ok(d) => forall|k: int| 0 <= k < d.len() ==> !(d[k] is End),
            Err(_) => true,
        },
    decreases events.len(),
{
    if events.len() > 0 {
        lemma_build_no_end(events.drop_first());
    }
}

/// An owned copy of a byte vector.
fn copy_bytes(b: &Vec<u8>) -> (r: Vec<u8>)
    ensures
        r@ == b@,
{
    let mut out: Vec<u8> = Vec::new();
    let n = b.len();
    let mut i: usize = 0;
    while i < n
        invariant
            n == b@.len(),
            i <= n,
            out@ == b@.subrange(0, i as int),
        decreases n - i,
    {
        out.push(b[i]);
        proof {
            assert(out@ =~= b@.subrange(0, i + 1));
        }
        i = i + 1;
    }
    proof {
        assert(b@.subrange(0, n as int) =~= b@);
    }
    out
}

/// Decodes every attribute of a tag, in order; the first payload that
/// is not valid UTF-8 comes back as the error.
fn classify_attrs(attrs: &Vec<RawAttribute>) -> (r: Result<Vec<XmlAttribute>, Vec<u8>>)
    ensures
        match r {
            Ok(v) => spec_classify_attrs(raw_attrs_view(attrs@)) == Ok::<_, Seq<u8>>(
                attrs_view(v@),
            ),
            Err(b) => spec_classify_attrs(raw_attrs_view(attrs@)) == Err::<Seq<AttrModel>, _>(b@),
        },
{
    let ghost full = raw_attrs_view(attrs@);
    let n = attrs.len();
    let mut out: Vec<XmlAttribute> = Vec::new();
    let mut i: usize = 0;
    proof {
        assert(full.subrange(0, n as int) =~= full);
    }
    while i < n
        invariant
            n == attrs@.len(),
            i <= n,
            full == raw_attrs_view(attrs@),
            full.len() == n,
            attrs_view(out@).len() == i,
            match spec_classify_attrs(full.subrange(i as int, n as int)) {
                Ok(rest) => spec_classify_attrs(full) == Ok::<_, Seq<u8>>(
                    attrs_view(out@) + rest,
                ),
                Err(b) => spec_classify_attrs(full) == Err::<Seq<AttrModel>, _>(b),
            },
        decreases n - i,
    {
        let ghost rest = full.subrange(i as int, n as int);
        proof {
            assert(rest[0] == attrs@[i as int]@);
            assert(rest.drop_first() =~= full.subrange(i + 1, n as int));
        }
        let name = match utf8_to_string_checked(&attrs[i].name) {
            Some(s) => s,
            None => {
                return Err(copy_bytes(&attrs[i].name));
            }
        };
        let value = match utf8_to_string_checked(&attrs[i].value) {
            Some(s) => s,
            None => {
                return Err(copy_bytes(&attrs[i].value));
            }
        };
        let ghost out_prev = out@;
        out.push(XmlAttribute { name, value });
        proof {
            assert(attrs_view(out@) =~= attrs_view(out_prev).push(out@.last()@));
            if spec_classify_attrs(full.subrange(i + 1, n as int)) is Ok {
                let tail = spec_classify_attrs(full.subrange(i + 1, n as int))->Ok_0;
                assert(spec_classify_attrs(rest) == Ok::<_, Seq<u8>>(
                    seq![
                        AttrModel {
                            name: decode_utf8(rest[0].name),
                            value: decode_utf8(rest[0].value),
                        },
                    ] + tail,
                ));
                assert(attrs_view(out_prev) + (seq![out@.last()@] + tail) =~= attrs_view(out@)
                    + tail);
            }
        }
        i = i + 1;
    }
    proof {
        assert(full.subrange(n as int, n as int) =~= Seq::<RawAttrModel>::empty());
        assert(attrs_view(out@) + Seq::<AttrModel>::empty() =~= attrs_view(out@));
    }
    Ok(out)
}

impl XmlElement {
    /// Classification of one raw parse event: a pure mapping to exactly
    /// one element, or a decoding error carrying the first byte payload
    /// that is not valid UTF-8.
    pub fn parse_event(ev: &RawEvent) -> (r: Result<XmlElement, XmlError>)
        ensures
            elem_result_view(r) == spec_classify(ev@),
    {
        match ev {
            RawEvent::Open(nb, attrs) => {
                let name = match utf8_to_string_checked(nb) {
                    Some(s) => s,
                    None => {
                        return Err(XmlError::DecodeError(copy_bytes(nb)));
                    }
                };
                match classify_attrs(attrs) {
                    Ok(a) => Ok(XmlElement::OpenTag(name, a)),
                    Err(b) => Err(XmlError::DecodeError(b)),
                }
            }
            RawEvent::Empty(nb, attrs) => {
                let name = match utf8_to_string_checked(nb) {
                    Some(s) => s,
                    None => {
                        return Err(XmlError::DecodeError(copy_bytes(nb)));
                    }
                };
                match classify_attrs(attrs) {
                    Ok(a) => Ok(XmlElement::EmptyTag(name, a)),
                    Err(b) => Err(XmlError::DecodeError(b)),
                }
            }
            RawEvent::Text(tb) => match utf8_to_string_checked(tb) {
                Some(s) => Ok(XmlElement::Text(s)),
                None => Err(XmlError::DecodeError(copy_bytes(tb))),
            },
            RawEvent::Close(nb) => match utf8_to_string_checked(nb) {
                Some(s) => Ok(XmlElement::ElementEnd(s)),
                None => Err(XmlError::DecodeError(copy_bytes(nb))),
            },
            RawEvent::Other(b) => match utf8_to_string_checked(b) {
                Some(s) => Ok(XmlElement::SomethingElse(s)),
                None => Err(XmlError::DecodeError(copy_bytes(b))),
            },
            RawEvent::Eof => Ok(XmlElement::End),
        }
    }
}

/// Relies on str::from_utf8: it succeeds exactly on valid UTF-8, and
/// the characters of the resulting string are the decoding of the
/// bytes, as vstd's UTF-8 model states it.
#[verifier::external_body]
fn utf8_to_string_checked(bytes: &Vec<u8>) -> (r: Option<String>)
    ensures
        match r {
            Some(s) => valid_utf8(bytes@) && s@ == decode_utf8(bytes@),
            None => !valid_utf8(bytes@),
        },
{
    match std::str::from_utf8(bytes.as_slice()) {
        Ok(s) => Some(s.to_owned()),
        Err(_) => None,
    }
}

} // verus!
