use crate::scan::{bounded, is_bounded};
use crate::text::str_eq;
use roxmltree::Error::UnclosedRootNode;
use roxmltree::{Document, ParsingOptions};
use vstd::prelude::*;
use vstd::utf8::encode_utf8;

verus! {

/// One attribute of an element: its namespace URI, if it has one, its local name and its value.
#[derive(Clone, Debug, PartialEq, Eq)]
pub struct XmlAttribute {
    pub namespace: Option<String>,
    pub name: String,
    pub value: String,
}

/// The view of an attribute: what it holds, with its texts as sequences of characters.
pub struct AttributeView {
    pub namespace: Option<Seq<char>>,
    pub name: Seq<char>,
    pub value: Seq<char>,
}

impl DeepView for XmlAttribute {
    type V = AttributeView;

    open spec fn deep_view(&self) -> AttributeView {
        AttributeView {
            namespace: self.namespace.deep_view(),
            name: self.name@,
            value: self.value@,
        }
    }
}

/// A node of a document tree. Nodes that are no elements have an empty tag.
#[derive(Debug, PartialEq, Eq)]
pub struct XmlNode {
    pub tag: String,
    pub attributes: Vec<XmlAttribute>,
    pub text: Option<String>,
    pub children: Vec<XmlNode>,
}

/// The view of a node: what it holds, with its texts as sequences of characters.
pub struct NodeView {
    pub tag: Seq<char>,
    pub attributes: Seq<AttributeView>,
    pub text: Option<Seq<char>>,
    pub children: Seq<NodeView>,
}

/// The view of a node: its own texts, and the views of its children in order.
pub open spec fn node_view(node: XmlNode) -> NodeView
    decreases node,
{
    NodeView {
        tag: node.tag@,
        attributes: node.attributes.deep_view(),
        text: node.text.deep_view(),
        children: Seq::new(
            node.children.len() as nat,
            |i: int|
                if 0 <= i < node.children.len() {
                    node_view(node.children[i])
                } else {
                    arbitrary()
                },
        ),
    }
}

impl DeepView for XmlNode {
    type V = NodeView;

    open spec fn deep_view(&self) -> NodeView {
        node_view(*self)
    }
}

impl XmlNode {
    /// The children of the node's view are the views of its children.
    pub proof fn lemma_children_view(&self)
        ensures
            self.deep_view().children == self.children.deep_view(),
    {
    }
}

/// The value of the first attribute without a namespace that has the given name.
pub open spec fn lookup(attributes: Seq<AttributeView>, name: Seq<char>) -> Option<Seq<char>>
    decreases attributes.len(),
{
    if attributes.len() == 0 {
        None
    } else if attributes[0].namespace is None && attributes[0].name == name {
        Some(attributes[0].value)
    } else {
        lookup(attributes.drop_first(), name)
    }
}

impl NodeView {
    /// The value of the node's attribute of the given name.
    pub open spec fn attribute(self, name: Seq<char>) -> Option<Seq<char>> {
        lookup(self.attributes, name)
    }
}

/// The view of a text that may be absent.
pub open spec fn text_view(t: Option<&str>) -> Option<Seq<char>> {
    match t {
        Some(s) => Some(s@),
        None => None,
    }
}

impl XmlNode {
    /// The value of the node's attribute of the given name.
    pub fn attribute(&self, name: &str) -> (r: Option<&str>)
        ensures
            text_view(r) == self.deep_view().attribute(name@),
    {
        let ghost all = self.attributes.deep_view();
        let mut i: usize = 0;
        assert(all.skip(0) == all);
        while i < self.attributes.len()
            invariant
                i <= self.attributes.len(),
                all == self.attributes.deep_view(),
                lookup(all, name@) == lookup(all.skip(i as int), name@),
            decreases self.attributes.len() - i,
        {
            let a = &self.attributes[i];
            assert(all.skip(i as int).drop_first() == all.skip(i + 1));
            if a.namespace.is_none() && str_eq(a.name.as_str(), name) {
                return Some(a.value.as_str());
            }
            i += 1;
        }
        None
    }
}

impl NodeView {
    /// The node with one child more, at position `k` among its children.
    pub open spec fn with_child(self, k: int, child: NodeView) -> NodeView {
        NodeView { children: self.children.insert(k, child), ..self }
    }

    /// The node with other children.
    pub open spec fn with_children(self, children: Seq<NodeView>) -> NodeView {
        NodeView { children, ..self }
    }
}


/// One row of the flat form of a document: a node with the row of its parent.
#[derive(Clone, Debug, PartialEq, Eq)]
pub struct RawNode {
    pub parent: Option<usize>,
    pub tag: String,
    pub attributes: Vec<XmlAttribute>,
    pub text: Option<String>,
}

/// The view of a row: what it holds, with its texts as sequences of characters.
pub struct RawNodeView {
    pub parent: Option<usize>,
    pub tag: Seq<char>,
    pub attributes: Seq<AttributeView>,
    pub text: Option<Seq<char>>,
}

impl DeepView for RawNode {
    type V = RawNodeView;

    open spec fn deep_view(&self) -> RawNodeView {
        RawNodeView {
            parent: self.parent,
            tag: self.tag@,
            attributes: self.attributes.deep_view(),
            text: self.text.deep_view(),
        }
    }
}

/// Why a text is no document: its root element is left open, or something else, told
/// in words.
#[derive(Clone, Debug, PartialEq, Eq)]
pub enum XmlFault {
    UnclosedRoot,
    Other(String),
}

/// The view of a fault: what it holds, with its text as a sequence of characters.
pub enum XmlFaultView {
    UnclosedRoot,
    Other(Seq<char>),
}

impl DeepView for XmlFault {
    type V = XmlFaultView;

    open spec fn deep_view(&self) -> XmlFaultView {
        match self {
            XmlFault::UnclosedRoot => XmlFaultView::UnclosedRoot,
            XmlFault::Other(message) => XmlFaultView::Other(message@),
        }
    }
}

/// The view of a table that was read, or of the fault in the text.
pub open spec fn table_view(r: Result<Vec<RawNode>, XmlFault>) -> Result<
    Seq<RawNodeView>,
    XmlFaultView,
> {
    match r {
        Ok(t) => Ok(t.deep_view()),
        Err(e) => Err(e.deep_view()),
    }
}

/// The rows that the XML parser gives for a text, or the fault it finds in it, with
/// the parser's own words for any fault but a root element left open.
pub uninterp spec fn xml_table(text: Seq<char>) -> Result<Seq<RawNodeView>, XmlFaultView>;

/// Parses `xml` with `roxmltree::Document::parse_with_options`, DTDs allowed, and lists
/// the nodes that `Document::descendants` gives, in its order: each with the position of
/// its parent in the list (`Node::parent`, `Node::id`), the local name of its tag
/// (`Node::tag_name`), its attributes (`Node::attributes`) and its text (`Node::text`).
/// Of the parser's errors, `UnclosedRootNode` is told from all others, which are kept
/// as the text that their `Display` gives.
///
/// This function is trusted, not proved. Its contract claims one thing of the outside
/// parser: the outcome is a function of the text, which `xml_table` names. It claims
/// nothing of the shape of the table; `assemble` takes any table.
///
/// The texts that it takes are the bounded ones, for two reasons. The parser's
/// tokenizer calls itself once for every element that is open, so a text may only nest
/// elements as deep as `MAX_DEPTH`. And the parser reads what an entity stands for as
/// content of the element that refers to it, where a closing tag can leave the parser
/// in a state that it takes to be unreachable; so no entity may be declared with a `<`
/// in a quoted part, and then no tag comes out of an entity.
#[verifier::external_body]
fn read_table(xml: &str) -> (r: Result<Vec<RawNode>, XmlFault>)
    requires
        bounded(encode_utf8(xml@)),
    ensures
        table_view(r) == xml_table(xml@),
{
    match Document::parse_with_options(xml, ParsingOptions { allow_dtd: true, ..Default::default() }) {
        Ok(doc) => Ok(doc.descendants().map(|n| RawNode {
            parent: n.parent().map(|p| p.id().get_usize()),
            tag: n.tag_name().name().to_string(),
            attributes: n.attributes().map(|a| XmlAttribute {
                namespace: a.namespace().map(str::to_string),
                name: a.name().to_string(),
                value: a.value().to_string(),
            }).collect(),
            text: n.text().map(str::to_string),
        }).collect()),
        Err(UnclosedRootNode) => Err(XmlFault::UnclosedRoot),
        Err(e) => Err(XmlFault::Other(e.to_string())),
    }
}

/// The node that row `i` of a table stands for: its texts, and as children the nodes of
/// the later rows that name it as their parent, in the order of the rows.
pub open spec fn subtree(table: Seq<RawNodeView>, i: int) -> NodeView
    decreases table.len() - i, 0int,
{
    NodeView {
        tag: table[i].tag,
        attributes: table[i].attributes,
        text: table[i].text,
        children: if 0 <= i < table.len() {
            offspring(table, i, i + 1)
        } else {
            Seq::empty()
        },
    }
}

/// The nodes of the rows from `from` on that name row `parent` as their parent.
pub open spec fn offspring(table: Seq<RawNodeView>, parent: int, from: int) -> Seq<NodeView>
    decreases table.len() - from, 1int,
{
    if !(0 <= from < table.len()) {
        Seq::empty()
    } else if table[from].parent is Some && table[from].parent->Some_0 == parent {
        seq![subtree(table, from)] + offspring(table, parent, from + 1)
    } else {
        offspring(table, parent, from + 1)
    }
}

/// Whether a row is a child of the first row and has a tag: an element at the top of the
/// document.
pub open spec fn is_top_element(row: RawNodeView) -> bool {
    row.parent == Some(0usize) && row.tag.len() > 0
}

/// The first row from `from` on that is an element at the top of the document.
pub open spec fn top_element(table: Seq<RawNodeView>, from: int) -> Option<int>
    decreases table.len() - from,
{
    if !(0 <= from < table.len()) {
        None
    } else if is_top_element(table[from]) {
        Some(from)
    } else {
        top_element(table, from + 1)
    }
}

/// The root element of the document that a table stands for: the first element among the
/// children of the first row. A table without one stands for no document.
pub open spec fn document_root(table: Seq<RawNodeView>) -> Option<NodeView> {
    match top_element(table, 1) {
        Some(i) => Some(subtree(table, i)),
        None => None,
    }
}

/// A list with one element more in front, reversed.
proof fn lemma_reverse_front<T>(x: T, s: Seq<T>)
    ensures
        (seq![x] + s).reverse() == s.reverse().push(x),
{
}

/// Turns a list of nodes round.
fn reversed(nodes: Vec<XmlNode>) -> (r: Vec<XmlNode>)
    ensures
        r.deep_view() == nodes.deep_view().reverse(),
{
    let ghost all = nodes@;
    let mut nodes = nodes;
    let mut out: Vec<XmlNode> = Vec::new();
    while nodes.len() > 0
        invariant
            nodes.len() + out.len() == all.len(),
            nodes@ == all.take(nodes.len() as int),
            forall|k: int| 0 <= k < out.len() ==> out@[k] == all[all.len() - 1 - k],
        decreases nodes.len(),
    {
        let node = nodes.pop().unwrap();
        out.push(node);
    }
    out
}

/// As many empty lists as `n`.
fn empty_lists(n: usize) -> (r: Vec<Vec<XmlNode>>)
    ensures
        r.len() == n,
        forall|p: int| 0 <= p < n ==> (#[trigger] r[p])@.len() == 0,
{
    let mut r: Vec<Vec<XmlNode>> = Vec::new();
    while r.len() < n
        invariant
            r.len() <= n,
            forall|p: int| 0 <= p < r.len() ==> (#[trigger] r[p])@.len() == 0,
        decreases n - r.len(),
    {
        r.push(Vec::new());
    }
    r
}

/// Builds the tree of the document that a table stands for, from its root element down.
pub fn assemble(table: Vec<RawNode>) -> (r: Option<XmlNode>)
    ensures
        r.deep_view() == document_root(table.deep_view()),
{
    let ghost full = table.deep_view();
    let n = table.len();
    // The root element is looked for from the second row on.
    let mut root: usize = 1;
    while root < n && !(table[root].parent == Some(0) && !table[root].tag.as_str().is_empty())
        invariant
            1 <= root,
            n == table.len(),
            full == table.deep_view(),
            top_element(full, 1) == top_element(full, root as int),
        decreases n - root,
    {
        root += 1;
    }
    if root >= n {
        return None;
    }
    // The rows are taken from the last to the root element. When a row is taken, the
    // nodes of its children are complete: `pending[p]` holds the children of row `p` that
    // were built so far, the last one first.
    let mut rows = table;
    let mut pending = empty_lists(n);
    loop
        invariant
            root < rows.len() <= n,
            full == table.deep_view(),
            n == full.len(),
            pending.len() == rows.len(),
            rows.deep_view() == full.take(rows.len() as int),
            top_element(full, 1) == Some(root as int),
            forall|p: int|
                0 <= p < pending.len() ==> (#[trigger] pending[p]).deep_view() == offspring(
                    full,
                    p,
                    rows.len() as int,
                ).reverse(),
        decreases rows.len(),
    {
        let ghost before = rows.deep_view();
        let row = rows.pop().unwrap();
        let i: usize = rows.len();
        let kids = pending.pop().unwrap();
        let parent = row.parent;
        proof {
            assert(before[i as int] == row.deep_view());
            assert(offspring(full, i as int, i + 1).reverse().reverse() =~= offspring(
                full,
                i as int,
                i + 1,
            ));
        }
        let node = XmlNode {
            tag: row.tag,
            attributes: row.attributes,
            text: row.text,
            children: reversed(kids),
        };
        proof {
            node.lemma_children_view();
        }
        if i == root {
            return Some(node);
        }
        proof {
            // What is pending for a row is what was pending before, but for the parent of
            // the row just taken, which still lacks its node.
            assert forall|p: int| 0 <= p < i implies (#[trigger] pending[p]).deep_view()
                == if parent is Some && parent->Some_0 == p {
                offspring(full, p, i + 1).reverse()
            } else {
                offspring(full, p, i as int).reverse()
            } by {}
        }
        match parent {
            Some(p) => {
                if p < i {
                    pending[p].push(node);
                    proof {
                        lemma_reverse_front(
                            subtree(full, i as int),
                            offspring(full, p as int, i + 1),
                        );
                    }
                }
            },
            None => {},
        }
    }
}

/// What is said of a text that is not bounded.
pub open spec fn unbounded_text() -> Seq<char> {
    "elements nested too deeply, or markup in the declaration of an entity"@
}

/// What is said of a text in which the parser finds no root element.
pub open spec fn rootless_text() -> Seq<char> {
    "no root element"@
}

/// The document that a text stands for: the tree under its root element, or the fault
/// of the text. A text that is not bounded is not handed to the XML parser: that is its
/// fault. Of any other text the fault is the one that the XML parser finds.
pub open spec fn document(text: Seq<char>) -> Result<NodeView, XmlFaultView> {
    if !bounded(encode_utf8(text)) {
        Err(XmlFaultView::Other(unbounded_text()))
    } else {
        match xml_table(text) {
            Ok(table) => match document_root(table) {
                Some(root) => Ok(root),
                None => Err(XmlFaultView::Other(rootless_text())),
            },
            Err(fault) => Err(fault),
        }
    }
}

/// The view of a document that was read, or of the fault in it.
pub open spec fn document_view(r: Result<XmlNode, XmlFault>) -> Result<NodeView, XmlFaultView> {
    match r {
        Ok(root) => Ok(root.deep_view()),
        Err(fault) => Err(fault.deep_view()),
    }
}

/// Reads a text as a document and gives the tree under its root element. The text is
/// handed to the XML parser only if it is bounded.
pub fn read_document(xml: &str) -> (r: Result<XmlNode, XmlFault>)
    ensures
        document_view(r) == document(xml@),
{
    if !is_bounded(xml) {
        return Err(
            XmlFault::Other(
                "elements nested too deeply, or markup in the declaration of an entity".to_owned(),
            ),
        );
    }
    match read_table(xml) {
        Ok(table) => match assemble(table) {
            Some(root) => Ok(root),
            None => Err(XmlFault::Other("no root element".to_owned())),
        },
        Err(fault) => Err(fault),
    }
}

} // verus!
