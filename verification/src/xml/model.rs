//! The mathematical model of a document: ghost mirrors of the element
//! types over `Seq<char>`, and the spec functions that the contracts of
//! the queries, the partitioner and the rendering speak of.

use vstd::prelude::*;

verus! {

/// Ghost mirror of `XmlAttribute`.
pub struct AttrModel {
    pub name: Seq<char>,
    pub value: Seq<char>,
}

/// Ghost mirror of `XmlElement`.
pub enum ElemModel {
    OpenTag(Seq<char>, Seq<AttrModel>),
    EmptyTag(Seq<char>, Seq<AttrModel>),
    Text(Seq<char>),
    SomethingElse(Seq<char>),
    ElementEnd(Seq<char>),
    End,
}

/// The name of one element, when it is an opening or self-closing tag.
pub open spec fn elem_name(e: ElemModel) -> Option<Seq<char>> {
    match e {
        ElemModel::OpenTag(n, _) => Some(n),
        ElemModel::EmptyTag(n, _) => Some(n),
        _ => None,
    }
}

/// The name of a document: the name of its first element, when that
/// element is an opening or self-closing tag.
pub open spec fn doc_name(d: Seq<ElemModel>) -> Option<Seq<char>> {
    if d.len() == 0 {
        None
    } else {
        elem_name(d[0])
    }
}

/// How one element moves the nesting counter: an opening tag raises it
/// by one, a closing tag lowers it by one, everything else (text,
/// self-closing tags, opaque events) leaves it unchanged.
pub open spec fn depth_delta(e: ElemModel) -> int {
    match e {
        ElemModel::OpenTag(_, _) => 1,
        ElemModel::ElementEnd(_) => -1,
        _ => 0,
    }
}

/// The nesting counter after the whole of `d` has been scanned.  On
/// input with stray closing tags it goes negative: depth accounting is
/// purely count-based and does not re-validate names.
pub open spec fn running_depth(d: Seq<ElemModel>) -> int
    decreases d.len(),
{
    if d.len() == 0 {
        0
    } else {
        running_depth(d.drop_last()) + depth_delta(d.last())
    }
}

/// The greatest value the nesting counter reaches over any prefix of
/// `d`; never below 0, since the empty prefix already counts.
pub open spec fn max_depth(d: Seq<ElemModel>) -> int
    decreases d.len(),
{
    if d.len() == 0 {
        0
    } else {
        vstd::math::max(max_depth(d.drop_last()), running_depth(d))
    }
}

/// Position of the closing tag that matches an opening tag just before
/// position `j`, given that `depth` opens are still unmatched there: the
/// first position at or after `j` where the counter comes back to 0.
/// Nothing is found when the input runs out first.
pub open spec fn find_close(d: Seq<ElemModel>, j: int, depth: int) -> Option<int>
    decreases d.len() - j,
{
    if j < 0 || j >= d.len() {
        None
    } else {
        match d[j] {
            ElemModel::OpenTag(_, _) => find_close(d, j + 1, depth + 1),
            ElemModel::ElementEnd(_) => if depth == 1 {
                Some(j)
            } else {
                find_close(d, j + 1, depth - 1)
            },
            _ => find_close(d, j + 1, depth),
        }
    }
}

pub proof fn lemma_find_close_bounds(d: Seq<ElemModel>, j: int, depth: int)
    ensures
        match find_close(d, j, depth) {
            Some(c) => j <= c < d.len(),
            None => true,
        },
    decreases d.len() - j,
{
    if 0 <= j < d.len() {
        lemma_find_close_bounds(d, j + 1, depth + 1);
        lemma_find_close_bounds(d, j + 1, depth - 1);
        lemma_find_close_bounds(d, j + 1, depth);
    }
}

/// One step of the subtree partitioner at cursor position `i`:
/// - nothing, when the cursor is past the end or the element there is
///   not a tag that can root a subtree (stray text, a stray closing tag,
///   an opaque event);
/// - a one-element subtree for a self-closing tag;
/// - for an opening tag, the inclusive slice up to its matching closing
///   tag; when the input ends before the counter returns to 0, just the
///   opening tag itself.
/// The second component is the cursor position for the next step.
pub open spec fn subtree_step(d: Seq<ElemModel>, i: int) -> Option<(Seq<ElemModel>, int)> {
    if i < 0 || i >= d.len() {
        None
    } else {
        match d[i] {
            ElemModel::EmptyTag(_, _) => Some((seq![d[i]], i + 1)),
            ElemModel::OpenTag(_, _) => match find_close(d, i + 1, 1) {
                Some(c) => Some((d.subrange(i, c + 1), c + 1)),
                None => Some((d.subrange(i, i + 1), i + 1)),
            },
            _ => None,
        }
    }
}

pub proof fn lemma_subtree_step_advances(d: Seq<ElemModel>, i: int)
    ensures
        match subtree_step(d, i) {
            Some(step) => i < step.1 <= d.len(),
            None => true,
        },
{
    if 0 <= i < d.len() {
        lemma_find_close_bounds(d, i + 1, 1);
    }
}

/// The sequence of subtrees the partitioner yields when its cursor
/// starts at position `i`.
pub open spec fn spec_subtrees_from(d: Seq<ElemModel>, i: int) -> Seq<Seq<ElemModel>>
    decreases d.len() - i,
    via spec_subtrees_from_decreases
{
    match subtree_step(d, i) {
        None => Seq::empty(),
        Some(step) => seq![step.0] + spec_subtrees_from(d, step.1),
    }
}

#[via_fn]
proof fn spec_subtrees_from_decreases(d: Seq<ElemModel>, i: int) {
    lemma_subtree_step_advances(d, i);
}

/// The sequence of subtrees of a document: one per top-level item of the
/// flat sequence, in document order.
pub open spec fn spec_subtrees(d: Seq<ElemModel>) -> Seq<Seq<ElemModel>> {
    spec_subtrees_from(d, 0)
}

/// The first element anywhere in the flattened sequence that is an
/// opening or self-closing tag with the given name.
pub open spec fn first_elem_named(d: Seq<ElemModel>, n: Seq<char>) -> Option<ElemModel>
    decreases d.len(),
{
    if d.len() == 0 {
        None
    } else if elem_name(d[0]) == Some(n) {
        Some(d[0])
    } else {
        first_elem_named(d.drop_first(), n)
    }
}

/// The first of a sequence of subtrees whose root name is `n`.
pub open spec fn first_subtree_named(parts: Seq<Seq<ElemModel>>, n: Seq<char>) -> Option<
    Seq<ElemModel>,
>
    decreases parts.len(),
{
    if parts.len() == 0 {
        None
    } else if doc_name(parts[0]) == Some(n) {
        Some(parts[0])
    } else {
        first_subtree_named(parts.drop_first(), n)
    }
}

/// Whether `d` consists of exactly one subtree: the partitioner yields
/// the whole sequence in one step, rooted at an opening tag.
pub open spec fn is_single_rooted(d: Seq<ElemModel>) -> bool {
    &&& d.len() > 0
    &&& d[0] is OpenTag
    &&& spec_subtrees(d) == seq![d]
}

/// The subtree returned for a name query: the first top-level subtree
/// whose root name matches and, when the document is one subtree rooted
/// at an opening tag (the usual single-root document) and the root's own
/// name does not match, the first matching subtree one level in, among
/// the top-level children of the root.
pub open spec fn spec_get_subtree(d: Seq<ElemModel>, n: Seq<char>) -> Option<Seq<ElemModel>> {
    match first_subtree_named(spec_subtrees(d), n) {
        Some(p) => Some(p),
        None => if is_single_rooted(d) && d.len() >= 2 {
            first_subtree_named(spec_subtrees(d.subrange(1, d.len() - 1)), n)
        } else {
            None
        },
    }
}

/// A well-formed single-root document: an opening tag, a balanced body
/// (the nesting counter never goes below the root and returns to it),
/// and the matching closing tag at the end.
pub open spec fn well_formed_single_root(d: Seq<ElemModel>) -> bool {
    &&& d.len() >= 2
    &&& d[0] is OpenTag
    &&& d[d.len() - 1] is ElementEnd
    &&& running_depth(d.subrange(1, d.len() - 1)) == 0
    &&& forall|k: int| 1 <= k < d.len() - 1 ==> #[trigger] running_depth(d.subrange(1, k + 1)) >= 0
}

/// Ghost mirror of `XmlError`.
pub enum ErrorModel {
    EndOfXml,
    StrangeEvent(Seq<char>),
    ReadError(Seq<char>),
    DecodeError(Seq<u8>),
}

/// Textual form of one attribute: `name="value"`, double-quoted, with
/// the value taken as it stands.
pub open spec fn render_attr(a: AttrModel) -> Seq<char> {
    a.name + seq!['=', '"'] + a.value + seq!['"']
}

/// Textual form of an attribute list: the attributes in original order,
/// each preceded by a single space.
pub open spec fn render_attrs(attrs: Seq<AttrModel>) -> Seq<char>
    decreases attrs.len(),
{
    if attrs.len() == 0 {
        Seq::empty()
    } else {
        render_attrs(attrs.drop_last()) + seq![' '] + render_attr(attrs.last())
    }
}

/// Textual tag form of one element.
pub open spec fn render_elem(e: ElemModel) -> Seq<char> {
    match e {
        ElemModel::OpenTag(n, a) => seq!['<'] + n + render_attrs(a) + seq!['>'],
        ElemModel::EmptyTag(n, a) => seq!['<'] + n + render_attrs(a) + seq!['/', '>'],
        ElemModel::Text(t) => t,
        ElemModel::SomethingElse(r) => r,
        ElemModel::ElementEnd(n) => seq!['<', '/'] + n + seq!['>'],
        ElemModel::End => seq!['E', 'n', 'd', ' ', 'o', 'f', ' ', 'X', 'M', 'L'],
    }
}

/// Textual form of a whole document: the renderings of its elements,
/// concatenated in order.
pub open spec fn render_doc(d: Seq<ElemModel>) -> Seq<char>
    decreases d.len(),
{
    if d.len() == 0 {
        Seq::empty()
    } else {
        render_doc(d.drop_last()) + render_elem(d.last())
    }
}

pub proof fn lemma_running_le_max(d: Seq<ElemModel>)
    ensures
        running_depth(d) <= max_depth(d),
{
}

} // verus!
