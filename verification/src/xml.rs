//! A flat XML document model: a parsed document is one owned, ordered
//! sequence of classified elements, and structure (nesting depth, subtree
//! bounds) is computed by linear scans with a nesting counter rather than
//! by building a pointer tree.

use vstd::prelude::*;

pub mod events;
pub mod laws;
pub mod model;
pub mod reader;

verus! {

use crate::xml::events::{raw_events_view, spec_build, RawEvent, RawEventModel};
use crate::xml::model::{AttrModel, ElemModel, ErrorModel};
use crate::xml::model::{doc_name, max_depth, running_depth};
use crate::xml::model::{find_close, first_elem_named, first_subtree_named, is_single_rooted};
use crate::xml::model::{spec_get_subtree, spec_subtrees, spec_subtrees_from, subtree_step};
use crate::xml::model::{lemma_running_le_max, lemma_subtree_step_advances};
use crate::xml::model::{render_attr, render_attrs, render_doc, render_elem};
use vstd::string::StringExecFns;

/// One attribute of a tag: a name and a value, kept in source order.
/// Duplicate attribute names are preserved as given.
#[derive(Debug)]
pub struct XmlAttribute {
    pub name: String,
    pub value: String,
}

impl View for XmlAttribute {
    type V = AttrModel;

    open spec fn view(&self) -> AttrModel {
        AttrModel { name: self.name@, value: self.value@ }
    }
}

impl Clone for XmlAttribute {
    fn clone(&self) -> (r: Self)
        ensures
            r == *self,
    {
        XmlAttribute { name: self.name.clone(), value: self.value.clone() }
    }
}

impl XmlAttribute {
    /// The textual form `name="value"`.
    pub fn to_string(&self) -> (r: String)
        ensures
            r@ == render_attr(self@),
    {
        let mut s = self.name.clone();
        s.append("=\"");
        s.append(self.value.as_str());
        s.append("\"");
        proof {
            reveal_strlit("=\"");
            reveal_strlit("\"");
            assert(s@ =~= render_attr(self@));
        }
        s
    }
}

/// Appends ` name="value"` to `s` for each attribute, in order.
fn append_attrs(s: &mut String, attrs: &Vec<XmlAttribute>)
    ensures
        final(s)@ == old(s)@ + render_attrs(attrs_view(attrs@)),
{
    let n = attrs.len();
    let mut i: usize = 0;
    proof {
        assert(old(s)@ + render_attrs(attrs_view(attrs@).subrange(0, 0)) =~= old(s)@);
    }
    while i < n
        invariant
            n == attrs.len(),
            i <= n,
            s@ == old(s)@ + render_attrs(attrs_view(attrs@).subrange(0, i as int)),
        decreases n - i,
    {
        s.append(" ");
        let a = attrs[i].to_string();
        s.append(a.as_str());
        proof {
            reveal_strlit(" ");
            let av = attrs_view(attrs@);
            assert(av.subrange(0, i + 1).drop_last() =~= av.subrange(0, i as int));
            assert(av.subrange(0, i + 1).last() == attrs@[i as int]@);
            assert(s@ =~= old(s)@ + render_attrs(av.subrange(0, i + 1)));
        }
        i = i + 1;
    }
    proof {
        assert(attrs_view(attrs@).subrange(0, n as int) =~= attrs_view(attrs@));
    }
}

/// The view of a sequence of attributes, pointwise.
pub open spec fn attrs_view(s: Seq<XmlAttribute>) -> Seq<AttrModel> {
    s.map_values(|a: XmlAttribute| a@)
}

/// One classified unit of the XML token stream.
#[derive(Debug)]
pub enum XmlElement {
    /// Start of a container that will later be closed: name and attributes.
    OpenTag(String, Vec<XmlAttribute>),
    /// A self-closing container with no children: name and attributes.
    EmptyTag(String, Vec<XmlAttribute>),
    /// Character content between tags.
    Text(String),
    /// Any event outside the structural set (a comment, a declaration, a
    /// processing instruction), retained opaquely for display fidelity and
    /// ignored by the structural queries.
    SomethingElse(String),
    /// End marker counted against the nearest unmatched `OpenTag`; the
    /// name is not re-validated against its opener.
    ElementEnd(String),
    /// End-of-stream sentinel, consumed by the builder and never retained
    /// in a document.
    End,
}

impl View for XmlElement {
    type V = ElemModel;

    open spec fn view(&self) -> ElemModel {
        match self {
            XmlElement::OpenTag(n, a) => ElemModel::OpenTag(n@, attrs_view(a@)),
            XmlElement::EmptyTag(n, a) => ElemModel::EmptyTag(n@, attrs_view(a@)),
            XmlElement::Text(t) => ElemModel::Text(t@),
            XmlElement::SomethingElse(r) => ElemModel::SomethingElse(r@),
            XmlElement::ElementEnd(n) => ElemModel::ElementEnd(n@),
            XmlElement::End => ElemModel::End,
        }
    }
}

fn clone_attrs(attrs: &Vec<XmlAttribute>) -> (r: Vec<XmlAttribute>)
    ensures
        r@ == attrs@,
{
    let mut out: Vec<XmlAttribute> = Vec::new();
    let n = attrs.len();
    let mut i: usize = 0;
    while i < n
        invariant
            n == attrs.len(),
            i <= n,
            out@ == attrs@.subrange(0, i as int),
        decreases n - i,
    {
        out.push(attrs[i].clone());
        proof {
            assert(out@ =~= attrs@.subrange(0, i + 1 as int));
        }
        i = i + 1;
    }
    proof {
        assert(attrs@.subrange(0, n as int) =~= attrs@);
    }
    out
}

impl Clone for XmlElement {
    fn clone(&self) -> (r: Self)
        ensures
            r@ == self@,
    {
        match self {
            XmlElement::OpenTag(n, a) => XmlElement::OpenTag(n.clone(), clone_attrs(a)),
            XmlElement::EmptyTag(n, a) => XmlElement::EmptyTag(n.clone(), clone_attrs(a)),
            XmlElement::Text(t) => XmlElement::Text(t.clone()),
            XmlElement::SomethingElse(r) => XmlElement::SomethingElse(r.clone()),
            XmlElement::ElementEnd(n) => XmlElement::ElementEnd(n.clone()),
            XmlElement::End => XmlElement::End,
        }
    }
}

impl XmlElement {
    /// The textual tag form of the element: `<name ...>`, `<name .../>`,
    /// `</name>`, the raw text of character content and opaque events,
    /// and a fixed marker for the end-of-stream sentinel.
    pub fn to_string(&self) -> (r: String)
        ensures
            r@ == render_elem(self@),
    {
        match self {
            XmlElement::OpenTag(n, attrs) => {
                let mut s = String::new();
                s.append("<");
                s.append(n.as_str());
                append_attrs(&mut s, attrs);
                s.append(">");
                proof {
                    reveal_strlit("<");
                    reveal_strlit(">");
                    assert(s@ =~= render_elem(self@));
                }
                s
            }
            XmlElement::EmptyTag(n, attrs) => {
                let mut s = String::new();
                s.append("<");
                s.append(n.as_str());
                append_attrs(&mut s, attrs);
                s.append("/>");
                proof {
                    reveal_strlit("<");
                    reveal_strlit("/>");
                    assert(s@ =~= render_elem(self@));
                }
                s
            }
            XmlElement::Text(t) => t.clone(),
            XmlElement::SomethingElse(raw) => raw.clone(),
            XmlElement::ElementEnd(n) => {
                let mut s = String::new();
                s.append("</");
                s.append(n.as_str());
                s.append(">");
                proof {
                    reveal_strlit("</");
                    reveal_strlit(">");
                    assert(s@ =~= render_elem(self@));
                }
                s
            }
            XmlElement::End => {
                let mut s = String::new();
                s.append("End of XML");
                proof {
                    reveal_strlit("End of XML");
                    assert(s@ =~= render_elem(self@));
                }
                s
            }
        }
    }
}

/// The view of a sequence of elements, pointwise.
pub open spec fn elems_view(s: Seq<XmlElement>) -> Seq<ElemModel> {
    s.map_values(|e: XmlElement| e@)
}

/// What can go wrong while a document is built.  Construction failures
/// abort the whole build and come back as one of these; the queries on a
/// built document never fail.
#[derive(Debug)]
pub enum XmlError {
    /// Normal end of the token stream: an internal sentinel condition,
    /// never surfaced by the builder as a failure.
    EndOfXml,
    /// A recognized event arrived where only structural events are
    /// expected: the event's textual form.
    StrangeEvent(String),
    /// The underlying stream reported a malformed token: the
    /// tokenizer's own message.
    ReadError(String),
    /// A tag name, attribute name, attribute value or text payload was
    /// not valid UTF-8: the offending bytes.
    DecodeError(Vec<u8>),
}

impl View for XmlError {
    type V = ErrorModel;

    open spec fn view(&self) -> ErrorModel {
        match self {
            XmlError::EndOfXml => ErrorModel::EndOfXml,
            XmlError::StrangeEvent(s) => ErrorModel::StrangeEvent(s@),
            XmlError::ReadError(s) => ErrorModel::ReadError(s@),
            XmlError::DecodeError(b) => ErrorModel::DecodeError(b@),
        }
    }
}

/// An ordered, immutable sequence of elements representing one parsed
/// fragment.  The sequence is trusted to be well-nested as produced by
/// the source stream: the model itself does not enforce well-formedness,
/// and the depth and subtree scans under- or over-count on malformed
/// input rather than fail.
#[derive(Debug)]
pub struct XmlDocument(pub(crate) Vec<XmlElement>);

impl View for XmlDocument {
    type V = Seq<ElemModel>;

    closed spec fn view(&self) -> Seq<ElemModel> {
        elems_view(self.0@)
    }
}

impl Clone for XmlDocument {
    fn clone(&self) -> (r: Self)
        ensures
            r@ == self@,
    {
        XmlDocument(clone_elems(&self.0))
    }
}

pub(crate) fn clone_elems(elems: &Vec<XmlElement>) -> (r: Vec<XmlElement>)
    ensures
        elems_view(r@) == elems_view(elems@),
{
    let mut out: Vec<XmlElement> = Vec::new();
    let n = elems.len();
    let mut i: usize = 0;
    while i < n
        invariant
            n == elems.len(),
            i <= n,
            out@.len() == i,
            forall|k: int| 0 <= k < i ==> out@[k]@ == elems@[k]@,
        decreases n - i,
    {
        out.push(elems[i].clone());
        i = i + 1;
    }
    proof {
        assert(elems_view(out@) =~= elems_view(elems@));
    }
    out
}

impl XmlDocument {
    /// Builds a document from a complete raw event sequence: each event
    /// is classified and kept in order; the first end-of-stream event
    /// stops the build without being kept; the first classification
    /// failure aborts the build, and no partial document comes back.
    pub fn build_from_events(events: Vec<RawEvent>) -> (r: Result<XmlDocument, XmlError>)
        ensures
            match r {
                Ok(doc) => spec_build(raw_events_view(events@)) == Ok::<_, ErrorModel>(doc@),
                Err(e) => spec_build(raw_events_view(events@)) == Err::<Seq<ElemModel>, _>(e@),
            },
    {
        let ghost full = raw_events_view(events@);
        let n = events.len();
        let mut out: Vec<XmlElement> = Vec::new();
        let mut i: usize = 0;
        proof {
            assert(full.subrange(0, n as int) =~= full);
        }
        while i < n
            invariant
                n == events@.len(),
                i <= n,
                full == raw_events_view(events@),
                full.len() == n,
                elems_view(out@).len() == i,
                match spec_build(full.subrange(i as int, n as int)) {
                    Ok(rest) => spec_build(full) == Ok::<_, ErrorModel>(elems_view(out@) + rest),
                    Err(e) => spec_build(full) == Err::<Seq<ElemModel>, _>(e),
                },
            decreases n - i,
        {
            let ghost rest = full.subrange(i as int, n as int);
            proof {
                assert(rest[0] == events@[i as int]@);
                assert(rest.drop_first() =~= full.subrange(i + 1, n as int));
            }
            match XmlElement::parse_event(&events[i]) {
                Err(e) => {
                    return Err(e);
                }
                Ok(el) => {
                    if matches!(el, XmlElement::End) {
                        proof {
                            assert(elems_view(out@) + Seq::<ElemModel>::empty() =~= elems_view(
                                out@,
                            ));
                        }
                        return Ok(XmlDocument(out));
                    }
                    let ghost out_prev = out@;
                    out.push(el);
                    proof {
                        assert(!(out@.last()@ is End));
                        assert(elems_view(out@) =~= elems_view(out_prev).push(out@.last()@));
                        if spec_build(full.subrange(i + 1, n as int)) is Ok {
                            let tail = spec_build(full.subrange(i + 1, n as int))->Ok_0;
                            assert(spec_build(rest) == Ok::<_, ErrorModel>(
                                seq![out@.last()@] + tail,
                            ));
                            assert(elems_view(out_prev) + (seq![out@.last()@] + tail)
                                =~= elems_view(out@) + tail);
                        }
                    }
                }
            }
            i = i + 1;
        }
        proof {
            assert(full.subrange(n as int, n as int) =~= Seq::<RawEventModel>::empty());
            assert(elems_view(out@) + Seq::<ElemModel>::empty() =~= elems_view(out@));
        }
        Ok(XmlDocument(out))
    }

    /// Drives a streaming tokenizer to completion and builds the
    /// document from every event it reports.  What the tokenizer
    /// reports depends on state Verus cannot see, so the contract
    /// promises only what holds of every outcome: a built document
    /// never retains the end-of-stream sentinel.
    pub fn from_reader(reader: &mut quick_xml::reader::Reader<&[u8]>) -> (r: Result<
        XmlDocument,
        XmlError,
    >)
        ensures
            match r {
                Ok(doc) => forall|k: int| 0 <= k < doc@.len() ==> !(doc@[k] is End),
                Err(_) => true,
            },
    {
        match crate::xml::reader::read_all_raw_events(reader) {
            Err(msg) => Err(XmlError::ReadError(msg)),
            Ok(events) => {
                let ghost evs = raw_events_view(events@);
                let r = XmlDocument::build_from_events(events);
                proof {
                    crate::xml::events::lemma_build_no_end(evs);
                }
                r
            }
        }
    }

    /// Builds a document from a text fragment.
    pub fn from_text(text: &str) -> (r: Result<XmlDocument, XmlError>)
        ensures
            match r {
                Ok(doc) => forall|k: int| 0 <= k < doc@.len() ==> !(doc@[k] is End),
                Err(_) => true,
            },
    {
        let mut reader = crate::xml::reader::reader_from_str(text);
        XmlDocument::from_reader(&mut reader)
    }

    /// Builds a document from a byte buffer.  The buffer need not be
    /// valid UTF-8 as a whole: each tag name, attribute and text payload
    /// is decoded on its own, and the first invalid one aborts the build
    /// with a decoding error.
    pub fn from_bytes(bytes: &[u8]) -> (r: Result<XmlDocument, XmlError>)
        ensures
            match r {
                Ok(doc) => forall|k: int| 0 <= k < doc@.len() ==> !(doc@[k] is End),
                Err(_) => true,
            },
    {
        let mut reader = crate::xml::reader::reader_from_bytes(bytes);
        XmlDocument::from_reader(&mut reader)
    }

    /// The name of the document: the name of its first element if that is
    /// an `OpenTag` or `EmptyTag`, and nothing otherwise (an empty
    /// document, or one starting with bare text).
    pub fn name(&self) -> (r: Option<&str>)
        ensures
            match r {
                Some(s) => doc_name(self@) == Some(s@),
                None => doc_name(self@) is None,
            },
    {
        if self.0.len() == 0 {
            return None;
        }
        proof {
            assert(self@[0] == self.0@[0]@);
        }
        match &self.0[0] {
            XmlElement::OpenTag(n, _) => Some(n.as_str()),
            XmlElement::EmptyTag(n, _) => Some(n.as_str()),
            _ => None,
        }
    }

    /// The maximum nesting depth of the document: the greatest value the
    /// nesting counter reaches while scanning left to right, one up for
    /// every `OpenTag` and one down for every `ElementEnd`.  Self-closing
    /// tags do not move the counter, and an empty document has depth 0.
    pub fn depth(&self) -> (r: usize)
        ensures
            r == max_depth(self@),
    {
        let mut opens: usize = 0;
        let mut closes: usize = 0;
        let mut maxd: usize = 0;
        let n = self.0.len();
        let mut i: usize = 0;
        while i < n
            invariant
                n == self.0.len(),
                i <= n,
                opens <= i,
                closes <= i,
                opens - closes == running_depth(self@.subrange(0, i as int)),
                maxd == max_depth(self@.subrange(0, i as int)),
            decreases n - i,
        {
            proof {
                assert(self@.subrange(0, i + 1).drop_last() =~= self@.subrange(0, i as int));
                assert(self@.subrange(0, i + 1).last() == self.0@[i as int]@);
                lemma_running_le_max(self@.subrange(0, i as int));
            }
            match &self.0[i] {
                XmlElement::OpenTag(_, _) => {
                    opens = opens + 1;
                    if opens > closes && opens - closes > maxd {
                        maxd = opens - closes;
                    }
                }
                XmlElement::ElementEnd(_) => {
                    closes = closes + 1;
                }
                _ => {}
            }
            i = i + 1;
        }
        proof {
            assert(self@.subrange(0, n as int) =~= self@);
        }
        maxd
    }

    /// The whole element sequence, as an independently owned copy.
    pub fn flatten(&self) -> (r: Vec<XmlElement>)
        ensures
            elems_view(r@) == self@,
    {
        clone_elems(&self.0)
    }

    /// Positional access into the flattened sequence.
    pub fn get_element_at_index(&self, index: usize) -> (r: Option<XmlElement>)
        ensures
            match r {
                Some(el) => index < self@.len() && el@ == self@[index as int],
                None => index >= self@.len(),
            },
    {
        if index < self.0.len() {
            Some(self.0[index].clone())
        } else {
            None
        }
    }

    /// The first `OpenTag` or `EmptyTag` anywhere in the flattened
    /// sequence (not just at top level) whose name matches; first match
    /// wins, in document order.
    pub fn get_element_by_name(&self, name: &str) -> (r: Option<XmlElement>)
        ensures
            match r {
                Some(el) => first_elem_named(self@, name@) == Some(el@),
                None => first_elem_named(self@, name@) is None,
            },
    {
        let target: String = name.to_owned();
        let n = self.0.len();
        let mut i: usize = 0;
        proof {
            assert(self@.subrange(0, n as int) =~= self@);
        }
        while i < n
            invariant
                n == self.0.len(),
                i <= n,
                target@ == name@,
                first_elem_named(self@, name@) == first_elem_named(
                    self@.subrange(i as int, n as int),
                    name@,
                ),
            decreases n - i,
        {
            let ghost rest = self@.subrange(i as int, n as int);
            proof {
                assert(rest[0] == self.0@[i as int]@);
                assert(rest.drop_first() =~= self@.subrange(i + 1, n as int));
            }
            let matched = match &self.0[i] {
                XmlElement::OpenTag(el_name, _) => *el_name == target,
                XmlElement::EmptyTag(el_name, _) => *el_name == target,
                _ => false,
            };
            if matched {
                return Some(self.0[i].clone());
            }
            i = i + 1;
        }
        proof {
            assert(self@.subrange(n as int, n as int) =~= Seq::<ElemModel>::empty());
        }
        None
    }

    /// The subtrees of the document, one per top-level item of the flat
    /// sequence, in document order, each an independently owned copy.
    /// Partitioning depends on the element sequence alone, so iterating
    /// it again yields the same subtrees.
    pub fn iter_subtrees(&self) -> (r: Vec<XmlDocument>)
        ensures
            docs_view(r@) == spec_subtrees(self@),
    {
        let mut out: Vec<XmlDocument> = Vec::new();
        let mut i: usize = 0;
        proof {
            assert(docs_view(out@) + spec_subtrees_from(self@, 0) =~= spec_subtrees_from(
                self@,
                0,
            ));
        }
        loop
            invariant
                i <= self.0.len(),
                spec_subtrees(self@) == docs_view(out@) + spec_subtrees_from(self@, i as int),
            ensures
                spec_subtrees_from(self@, i as int) =~= Seq::<Seq<ElemModel>>::empty(),
            decreases self.0.len() - i,
        {
            proof {
                lemma_subtree_step_advances(self@, i as int);
            }
            match subtree_at(&self.0, i) {
                None => {
                    break;
                }
                Some((doc, nxt)) => {
                    proof {
                        assert(docs_view(out@.push(doc)) =~= docs_view(out@) + seq![doc@]);
                        assert(docs_view(out@) + (seq![doc@] + spec_subtrees_from(
                            self@,
                            nxt as int,
                        )) =~= (docs_view(out@) + seq![doc@]) + spec_subtrees_from(
                            self@,
                            nxt as int,
                        ));
                    }
                    out.push(doc);
                    i = nxt;
                }
            }
        }
        proof {
            assert(docs_view(out@) =~= spec_subtrees(self@));
        }
        out
    }

    /// The first top-level subtree whose root name matches; when the
    /// document is a single subtree rooted at an opening tag and its own
    /// name does not match, the search goes one level in, over the
    /// top-level children of the root.  This is not the same as the first
    /// element with that name anywhere: a match deeper than one level is
    /// never returned.
    pub fn get_subtree_by_name(&self, name: &str) -> (r: Option<XmlDocument>)
        ensures
            match r {
                Some(doc) => spec_get_subtree(self@, name@) == Some(doc@),
                None => spec_get_subtree(self@, name@) is None,
            },
    {
        let target: String = name.to_owned();
        let subs = self.iter_subtrees();
        match find_named(&subs, &target) {
            Some(k) => Some(subs[k].clone()),
            None => {
                let rooted = self.0.len() > 1 && subs.len() == 1 && subs[0].0.len()
                    == self.0.len() && matches!(&self.0[0], XmlElement::OpenTag(_, _));
                if !rooted {
                    proof {
                        if is_single_rooted(self@) && self@.len() >= 2 {
                            assert(docs_view(subs@).len() == 1);
                            assert(docs_view(subs@)[0] == subs@[0]@);
                            assert(docs_view(subs@)[0] == self@);
                            assert(subs@[0]@.len() == self@.len());
                            assert(self@[0] == self.0@[0]@);
                            assert(self.0@[0] is OpenTag);
                        }
                    }
                    return None;
                }
                proof {
                    assert(self@[0] == self.0@[0]@);
                    assert(self@[0] is OpenTag);
                    assert(docs_view(subs@) =~= seq![subs@[0]@]);
                    assert(subs@[0]@ == spec_subtrees(self@)[0]);
                    assert(subs@[0]@.len() == self@.len());
                    lemma_first_subtree_is_prefix(self@);
                    assert(subs@[0]@ =~= self@);
                    assert(spec_subtrees(self@) =~= seq![self@]);
                    assert(is_single_rooted(self@));
                }
                let inner = XmlDocument(clone_range(&self.0, 1, self.0.len() - 1));
                proof {
                    assert(inner@ =~= self@.subrange(1, self@.len() - 1));
                }
                let inner_subs = inner.iter_subtrees();
                match find_named(&inner_subs, &target) {
                    Some(k) => Some(inner_subs[k].clone()),
                    None => None,
                }
            }
        }
    }

    /// The textual form of the document: the renderings of its elements,
    /// concatenated in order.  This is a display aid, not guaranteed to
    /// be byte-identical to the source text the document was read from.
    pub fn to_string(&self) -> (r: String)
        ensures
            r@ == render_doc(self@),
    {
        let mut s = String::new();
        let n = self.0.len();
        let mut i: usize = 0;
        proof {
            assert(render_doc(self@.subrange(0, 0)) =~= Seq::<char>::empty());
        }
        while i < n
            invariant
                n == self.0.len(),
                i <= n,
                s@ == render_doc(self@.subrange(0, i as int)),
            decreases n - i,
        {
            let piece = self.0[i].to_string();
            s.append(piece.as_str());
            proof {
                assert(self@.subrange(0, i + 1).drop_last() =~= self@.subrange(0, i as int));
                assert(self@.subrange(0, i + 1).last() == self.0@[i as int]@);
            }
            i = i + 1;
        }
        proof {
            assert(self@.subrange(0, n as int) =~= self@);
        }
        s
    }
}

/// A cursor over the elements of a document, in order.  Each iterator
/// owns an independent copy of the document, so several iterators over
/// the same document do not interfere.
pub struct XmlIterator {
    doc: XmlDocument,
    index: usize,
}

impl XmlIterator {
    /// The elements the iterator walks.
    pub closed spec fn doc_view(&self) -> Seq<ElemModel> {
        self.doc@
    }

    /// The position of the next element to yield.
    pub closed spec fn cursor(&self) -> int {
        self.index as int
    }

    pub fn new(xml: &XmlDocument) -> (r: Self)
        ensures
            r.doc_view() == xml@,
            r.cursor() == 0,
    {
        XmlIterator { doc: xml.clone(), index: 0 }
    }

    /// The element at the cursor, advancing past it; nothing once the
    /// cursor has walked off the end.
    pub fn next(&mut self) -> (r: Option<XmlElement>)
        ensures
            final(self).doc_view() == old(self).doc_view(),
            match r {
                Some(el) => old(self).cursor() < old(self).doc_view().len() && el@ == old(
                    self,
                ).doc_view()[old(self).cursor()] && final(self).cursor() == old(self).cursor() + 1,
                None => old(self).cursor() >= old(self).doc_view().len() && final(self).cursor()
                    == old(self).cursor(),
            },
    {
        let len = self.doc.0.len();
        let item = self.doc.get_element_at_index(self.index);
        if self.index < len {
            self.index = self.index + 1;
        }
        item
    }
}

/// A cursor over the top-level subtrees of a document, in order.  Each
/// iterator owns an independent copy of the document; a fresh iterator
/// over the same document yields the same subtrees again.
pub struct XmlDocIterator {
    doc: XmlDocument,
    index: usize,
}

impl XmlDocIterator {
    /// The elements the iterator partitions.
    pub closed spec fn doc_view(&self) -> Seq<ElemModel> {
        self.doc@
    }

    /// The cursor position of the next partitioner step.
    pub closed spec fn cursor(&self) -> int {
        self.index as int
    }

    pub fn new(xml: &XmlDocument) -> (r: Self)
        ensures
            r.doc_view() == xml@,
            r.cursor() == 0,
    {
        XmlDocIterator { doc: xml.clone(), index: 0 }
    }

    /// The subtree at the cursor, advancing the cursor past it: one
    /// partitioner step.  A stray element at the cursor (text, a closing
    /// tag, an opaque event) ends the sequence early.
    pub fn next(&mut self) -> (r: Option<XmlDocument>)
        ensures
            final(self).doc_view() == old(self).doc_view(),
            match subtree_step(old(self).doc_view(), old(self).cursor()) {
                Some(step) => r matches Some(doc) && doc@ == step.0 && final(self).cursor()
                    == step.1,
                None => r is None && final(self).cursor() == old(self).cursor(),
            },
    {
        match subtree_at(&self.doc.0, self.index) {
            Some((doc, nxt)) => {
                self.index = nxt;
                Some(doc)
            }
            None => None,
        }
    }
}

/// The view of a sequence of documents, pointwise.
pub open spec fn docs_view(s: Seq<XmlDocument>) -> Seq<Seq<ElemModel>> {
    s.map_values(|d: XmlDocument| d@)
}

/// When the partitioner starts at the front of a non-empty document, the
/// first subtree it yields is a prefix of the document.
proof fn lemma_first_subtree_is_prefix(d: Seq<ElemModel>)
    requires
        d.len() > 0,
        d[0] is OpenTag || d[0] is EmptyTag,
    ensures
        spec_subtrees(d).len() > 0,
        spec_subtrees(d)[0] == d.subrange(0, spec_subtrees(d)[0].len() as int),
        spec_subtrees(d)[0].len() <= d.len(),
{
    lemma_subtree_step_advances(d, 0);
    if d[0] is EmptyTag {
        assert(spec_subtrees(d)[0] =~= d.subrange(0, 1));
    }
}

/// An independently owned copy of the elements in positions `[a, b)`.
fn clone_range(elems: &Vec<XmlElement>, a: usize, b: usize) -> (r: Vec<XmlElement>)
    requires
        a <= b <= elems@.len(),
    ensures
        elems_view(r@) == elems_view(elems@).subrange(a as int, b as int),
{
    let mut out: Vec<XmlElement> = Vec::new();
    let mut i: usize = a;
    while i < b
        invariant
            a <= i <= b <= elems@.len(),
            out@.len() == i - a,
            forall|k: int| 0 <= k < out@.len() ==> out@[k]@ == elems@[a + k]@,
        decreases b - i,
    {
        out.push(elems[i].clone());
        i = i + 1;
    }
    proof {
        assert(elems_view(out@) =~= elems_view(elems@).subrange(a as int, b as int));
    }
    out
}

/// One partitioner step at cursor position `i` over a flat element
/// sequence: the subtree starting there, as an owned document, and the
/// cursor position of the next step.
fn subtree_at(elems: &Vec<XmlElement>, i: usize) -> (r: Option<(XmlDocument, usize)>)
    ensures
        match subtree_step(elems_view(elems@), i as int) {
            Some(step) => r matches Some(pair) && pair.0@ == step.0 && pair.1 == step.1,
            None => r is None,
        },
{
    let ghost d = elems_view(elems@);
    let n = elems.len();
    if i >= n {
        return None;
    }
    match &elems[i] {
        XmlElement::EmptyTag(_, _) => {
            let mut v: Vec<XmlElement> = Vec::new();
            v.push(elems[i].clone());
            proof {
                assert(elems_view(v@) =~= seq![d[i as int]]);
            }
            Some((XmlDocument(v), i + 1))
        }
        XmlElement::OpenTag(_, _) => {
            let mut j = i + 1;
            let mut depth: usize = 1;
            let mut close: Option<usize> = None;
            while j < n && close.is_none()
                invariant
                    i + 1 <= j <= n,
                    n == elems@.len(),
                    d == elems_view(elems@),
                    d.len() == n,
                    1 <= depth <= j - i,
                    match close {
                        Some(c) => i < c < n && find_close(d, i + 1, 1) == Some(c as int),
                        None => find_close(d, i + 1, 1) == find_close(d, j as int, depth as int),
                    },
                decreases n - j,
            {
                proof {
                    assert(d[j as int] == elems@[j as int]@);
                }
                match &elems[j] {
                    XmlElement::OpenTag(_, _) => {
                        depth = depth + 1;
                    }
                    XmlElement::ElementEnd(_) => {
                        if depth == 1 {
                            close = Some(j);
                        } else {
                            depth = depth - 1;
                        }
                    }
                    _ => {}
                }
                j = j + 1;
            }
            match close {
                Some(c) => {
                    proof {
                        assert(find_close(d, i + 1, 1) == Some(c as int));
                    }
                    let doc = XmlDocument(clone_range(elems, i, c + 1));
                    proof {
                        assert(doc@ =~= d.subrange(i as int, c + 1));
                    }
                    Some((doc, c + 1))
                }
                None => {
                    proof {
                        assert(find_close(d, i + 1, 1) is None);
                    }
                    let doc = XmlDocument(clone_range(elems, i, i + 1));
                    proof {
                        assert(doc@ =~= d.subrange(i as int, i + 1));
                    }
                    Some((doc, i + 1))
                }
            }
        }
        _ => None,
    }
}

/// The index of the first document in `subs` whose root name is
/// `target`, in order.
fn find_named(subs: &Vec<XmlDocument>, target: &String) -> (r: Option<usize>)
    ensures
        match r {
            Some(k) => k < subs@.len() && first_subtree_named(docs_view(subs@), target@) == Some(
                subs@[k as int]@,
            ),
            None => first_subtree_named(docs_view(subs@), target@) is None,
        },
{
    let n = subs.len();
    let mut i: usize = 0;
    proof {
        assert(docs_view(subs@).subrange(0, n as int) =~= docs_view(subs@));
    }
    while i < n
        invariant
            n == subs@.len(),
            i <= n,
            first_subtree_named(docs_view(subs@), target@) == first_subtree_named(
                docs_view(subs@).subrange(i as int, n as int),
                target@,
            ),
        decreases n - i,
    {
        let ghost rest = docs_view(subs@).subrange(i as int, n as int);
        proof {
            assert(rest[0] == subs@[i as int]@);
            assert(rest.drop_first() =~= docs_view(subs@).subrange(i + 1, n as int));
        }
        let matched = match subs[i].name() {
            Some(s) => s.to_owned() == *target,
            None => false,
        };
        if matched {
            return Some(i);
        }
        i = i + 1;
    }
    proof {
        assert(docs_view(subs@).subrange(n as int, n as int) =~= Seq::<Seq<ElemModel>>::empty());
    }
    None
}

} // verus!
