use crate::failure::{at_attribute, Error, Failure, FailureView};
use crate::xml::{NodeView, XmlNode};
use vstd::prelude::*;

verus! {

/// A required attribute's text: a failure when the attribute is missing.
pub open spec fn required(value: Option<Seq<char>>, name: Seq<char>, parent: Seq<char>) -> Result<
    Seq<char>,
    FailureView,
> {
    match value {
        Some(s) => Ok(s),
        None => Err(at_attribute(Error::MissedAttribute, name, parent)),
    }
}

/// A required attribute's value: a failure when the attribute is missing or its text is
/// not accepted.
pub open spec fn required_with<T>(
    value: Option<Seq<char>>,
    decode: spec_fn(Seq<char>) -> Option<T>,
    name: Seq<char>,
    parent: Seq<char>,
) -> Result<T, FailureView> {
    match value {
        Some(s) => match decode(s) {
            Some(v) => Ok(v),
            None => Err(at_attribute(Error::FailedToParseAttribute, name, parent)),
        },
        None => Err(at_attribute(Error::MissedAttribute, name, parent)),
    }
}

/// An optional attribute's value: a failure when the attribute is there and its text is
/// not accepted.
pub open spec fn optional_with<T>(
    value: Option<Seq<char>>,
    decode: spec_fn(Seq<char>) -> Option<T>,
    name: Seq<char>,
    parent: Seq<char>,
) -> Result<Option<T>, FailureView> {
    match value {
        Some(s) => match decode(s) {
            Some(v) => Ok(Some(v)),
            None => Err(at_attribute(Error::FailedToParseAttribute, name, parent)),
        },
        None => Ok(None),
    }
}

/// The text of a required attribute.
pub fn require<'a>(node: &'a XmlNode, name: &'static str, parent: &'static str) -> (r: Result<
    &'a str,
    Failure,
>)
    ensures
        match r {
            Ok(s) => node.deep_view().attribute(name@) == Some(s@),
            Err(e) => node.deep_view().attribute(name@) is None && e.deep_view() == at_attribute(
                Error::MissedAttribute,
                name@,
                parent@,
            ),
        },
{
    match node.attribute(name) {
        Some(s) => Ok(s),
        None => Err(Failure::attribute(Error::MissedAttribute, name, parent)),
    }
}

/// The value decoded from an attribute's text, or the failure to decode it.
pub fn accept<T>(value: Option<T>, name: &'static str, parent: &'static str) -> (r: Result<
    T,
    Failure,
>)
    ensures
        match r {
            Ok(v) => value == Some(v),
            Err(e) => value is None && e.deep_view() == at_attribute(
                Error::FailedToParseAttribute,
                name@,
                parent@,
            ),
        },
{
    match value {
        Some(v) => Ok(v),
        None => Err(Failure::attribute(Error::FailedToParseAttribute, name, parent)),
    }
}

/// The text of an optional attribute, copied.
pub fn owned_attribute(node: &XmlNode, name: &str) -> (r: Option<String>)
    ensures
        r.deep_view() == node.deep_view().attribute(name@),
{
    match node.attribute(name) {
        Some(s) => Some(s.to_owned()),
        None => None,
    }
}

/// The value that a child's outcome holds; meaningful when the child did not fail.
pub open spec fn value_of<T>(r: Result<T, FailureView>) -> T {
    r->Ok_0
}

/// The failure that a child's outcome holds, if it is one.
pub open spec fn failure_of<T>(r: Result<T, FailureView>) -> Option<FailureView> {
    match r {
        Ok(_) => None,
        Err(e) => Some(e),
    }
}

/// The values of the children with the given tag, in document order.
pub open spec fn gathered<T>(
    children: Seq<NodeView>,
    tag: Seq<char>,
    parse: spec_fn(NodeView) -> Result<T, FailureView>,
) -> Seq<T>
    decreases children.len(),
{
    if children.len() == 0 {
        Seq::empty()
    } else if children.last().tag == tag {
        gathered(children.drop_last(), tag, parse).push(value_of(parse(children.last())))
    } else {
        gathered(children.drop_last(), tag, parse)
    }
}

/// The value of the last child with the given tag, if there is one.
pub open spec fn latest<T>(
    children: Seq<NodeView>,
    tag: Seq<char>,
    parse: spec_fn(NodeView) -> Result<T, FailureView>,
) -> Option<T>
    decreases children.len(),
{
    if children.len() == 0 {
        None
    } else if children.last().tag == tag {
        Some(value_of(parse(children.last())))
    } else {
        latest(children.drop_last(), tag, parse)
    }
}

/// The failure of the first child that fails, if one does; `failing` says how a child
/// fails.
pub open spec fn first_failure(
    children: Seq<NodeView>,
    failing: spec_fn(NodeView) -> Option<FailureView>,
) -> Option<FailureView>
    decreases children.len(),
{
    if children.len() == 0 {
        None
    } else {
        match first_failure(children.drop_last(), failing) {
            Some(e) => Some(e),
            None => failing(children.last()),
        }
    }
}

/// The values gathered for a tag are those of the children with that tag, each in the
/// place that its child has among them.
pub proof fn lemma_gathered_in_document_order<T>(
    children: Seq<NodeView>,
    tag: Seq<char>,
    parse: spec_fn(NodeView) -> Result<T, FailureView>,
)
    ensures
        gathered(children, tag, parse) == children.filter(|c: NodeView| c.tag == tag).map_values(
            |c: NodeView| value_of(parse(c)),
        ),
    decreases children.len(),
{
    reveal(Seq::filter);
    if children.len() > 0 {
        lemma_gathered_in_document_order(children.drop_last(), tag, parse);
    }
}

/// A list that is absent when it is empty.
pub open spec fn absent_if_empty<T>(s: Seq<T>) -> Option<Seq<T>> {
    if s.len() == 0 {
        None
    } else {
        Some(s)
    }
}

/// Whether a list that may be absent is absent or holds something.
pub open spec fn filled<T>(list: Option<Seq<T>>) -> bool {
    list is Some ==> list->Some_0.len() > 0
}

/// The last value for a tag is the value of a child with that tag.
pub proof fn lemma_latest_from_child<T>(
    children: Seq<NodeView>,
    tag: Seq<char>,
    parse: spec_fn(NodeView) -> Result<T, FailureView>,
) -> (i: int)
    requires
        latest(children, tag, parse) is Some,
    ensures
        0 <= i < children.len(),
        children[i].tag == tag,
        latest(children, tag, parse) == Some(value_of(parse(children[i]))),
    decreases children.len(),
{
    if children.last().tag == tag {
        children.len() - 1
    } else {
        lemma_latest_from_child(children.drop_last(), tag, parse)
    }
}

/// The first failure among the children is that of child `i` when none before it fails
/// and it does.
pub proof fn lemma_failure_found(
    children: Seq<NodeView>,
    failing: spec_fn(NodeView) -> Option<FailureView>,
    i: int,
)
    requires
        0 <= i < children.len(),
        first_failure(children.take(i), failing) is None,
        failing(children[i]) is Some,
    ensures
        first_failure(children, failing) == failing(children[i]),
    decreases children.len(),
{
    if i == children.len() - 1 {
    } else {
        assert(children.drop_last().take(i) == children.take(i));
        lemma_failure_found(children.drop_last(), failing, i);
    }
}

/// How the first `i + 1` children relate to the first `i`.
pub(crate) proof fn lemma_take_next(children: Seq<NodeView>, i: int)
    requires
        0 <= i < children.len(),
    ensures
        children.take(i + 1).drop_last() == children.take(i),
        children.take(i + 1).last() == children[i],
        children.take(i + 1).len() == i + 1,
{
}

/// Appends a value to a list.
pub fn push_value<T: DeepView>(v: &mut Vec<T>, x: T)
    ensures
        final(v)@ == old(v)@.push(x),
        final(v).deep_view() == old(v).deep_view().push(x.deep_view()),
{
    v.push(x);
}

/// A list, or nothing when it is empty.
pub fn non_empty<T: DeepView>(v: Vec<T>) -> (r: Option<Vec<T>>)
    ensures
        r.deep_view() == absent_if_empty(v.deep_view()),
{
    if v.len() == 0 {
        None
    } else {
        Some(v)
    }
}

/// Whether no child fails.
pub open spec fn all_pass(
    children: Seq<NodeView>,
    failing: spec_fn(NodeView) -> Option<FailureView>,
) -> bool {
    forall|i: int| 0 <= i < children.len() ==> failing(#[trigger] children[i]) is None
}

/// There is no first failure among the children if and only if no child fails.
pub proof fn lemma_no_failure_iff_all_pass(
    children: Seq<NodeView>,
    failing: spec_fn(NodeView) -> Option<FailureView>,
)
    ensures
        first_failure(children, failing) is None <==> all_pass(children, failing),
    decreases children.len(),
{
    if children.len() > 0 {
        let front = children.drop_last();
        lemma_no_failure_iff_all_pass(front, failing);
        if all_pass(children, failing) {
        }
        if first_failure(children, failing) is None {
            assert forall|i: int| 0 <= i < children.len() implies failing(
                #[trigger] children[i],
            ) is None by {
                if i < front.len() {
                    assert(front[i] == children[i]);
                }
            }
        }
    }
}

/// Whether a child with the given tag is among the children.
pub open spec fn has_child(children: Seq<NodeView>, tag: Seq<char>) -> bool {
    exists|i: int| 0 <= i < children.len() && (#[trigger] children[i]).tag == tag
}

/// There is a last child of the given tag if and only if there is a child of that tag.
pub proof fn lemma_latest_iff_has_child<T>(
    children: Seq<NodeView>,
    tag: Seq<char>,
    parse: spec_fn(NodeView) -> Result<T, FailureView>,
)
    ensures
        latest(children, tag, parse) is Some <==> has_child(children, tag),
    decreases children.len(),
{
    if children.len() > 0 {
        let front = children.drop_last();
        lemma_latest_iff_has_child(front, tag, parse);
        if children.last().tag != tag && has_child(children, tag) {
            let i = choose|i: int| 0 <= i < children.len() && (#[trigger] children[i]).tag == tag;
            assert(front[i].tag == tag);
        }
    }
}

/// The child of the given tag after which no other comes is the one that counts.
pub proof fn lemma_latest_is_last<T>(
    children: Seq<NodeView>,
    tag: Seq<char>,
    parse: spec_fn(NodeView) -> Result<T, FailureView>,
    i: int,
)
    requires
        0 <= i < children.len(),
        children[i].tag == tag,
        forall|j: int| i < j < children.len() ==> (#[trigger] children[j]).tag != tag,
    ensures
        latest(children, tag, parse) == Some(value_of(parse(children[i]))),
    decreases children.len(),
{
    if i < children.len() - 1 {
        lemma_latest_is_last(children.drop_last(), tag, parse, i);
    }
}

/// A child of another tag, put anywhere among the children, changes nothing in the
/// values gathered for a tag.
pub proof fn lemma_gathered_skips<T>(
    children: Seq<NodeView>,
    k: int,
    child: NodeView,
    tag: Seq<char>,
    parse: spec_fn(NodeView) -> Result<T, FailureView>,
)
    requires
        0 <= k <= children.len(),
        child.tag != tag,
    ensures
        gathered(children.insert(k, child), tag, parse) == gathered(children, tag, parse),
    decreases children.len(),
{
    let more = children.insert(k, child);
    if k == children.len() {
        assert(more.drop_last() == children);
    } else {
        assert(more.drop_last() == children.drop_last().insert(k, child));
        lemma_gathered_skips(children.drop_last(), k, child, tag, parse);
    }
}

/// A child of another tag, put anywhere among the children, changes nothing in the
/// last value for a tag.
pub proof fn lemma_latest_skips<T>(
    children: Seq<NodeView>,
    k: int,
    child: NodeView,
    tag: Seq<char>,
    parse: spec_fn(NodeView) -> Result<T, FailureView>,
)
    requires
        0 <= k <= children.len(),
        child.tag != tag,
    ensures
        latest(children.insert(k, child), tag, parse) == latest(children, tag, parse),
    decreases children.len(),
{
    let more = children.insert(k, child);
    if k == children.len() {
        assert(more.drop_last() == children);
    } else {
        assert(more.drop_last() == children.drop_last().insert(k, child));
        lemma_latest_skips(children.drop_last(), k, child, tag, parse);
    }
}

/// A child that does not fail, put anywhere among the children, changes nothing in the
/// first failure.
pub proof fn lemma_first_failure_skips(
    children: Seq<NodeView>,
    k: int,
    child: NodeView,
    failing: spec_fn(NodeView) -> Option<FailureView>,
)
    requires
        0 <= k <= children.len(),
        failing(child) is None,
    ensures
        first_failure(children.insert(k, child), failing) == first_failure(children, failing),
    decreases children.len(),
{
    let more = children.insert(k, child);
    if k == children.len() {
        assert(more.drop_last() == children);
    } else {
        assert(more.drop_last() == children.drop_last().insert(k, child));
        lemma_first_failure_skips(children.drop_last(), k, child, failing);
    }
}

} // verus!
