//! The tree of nodes that sanitization works on, and its mathematical model.
//!
//! A document owns its nodes outright: an element holds its attributes and
//! its children by value, so removal and unwrapping are ordinary operations
//! on vectors and no traversal can touch a freed node. The ghost model mirrors
//! the tree with `Seq`-based values that the contracts speak of.

use vstd::prelude::*;
use vstd::string::StringExecFns;

verus! {

/// An attribute of an element: a name and a string value.
#[derive(Debug, PartialEq, Eq)]
pub struct Attr {
    pub name: String,
    pub value: String,
}

/// The ghost image of an [`Attr`].
#[verifier::ext_equal]
pub struct AttrModel {
    pub name: Seq<char>,
    pub value: Seq<char>,
}

impl View for Attr {
    type V = AttrModel;

    open spec fn view(&self) -> AttrModel {
        AttrModel { name: self.name@, value: self.value@ }
    }
}

impl Attr {
    /// Builds an attribute from a name and a value.
    pub fn new(name: &str, value: &str) -> (r: Attr)
        ensures
            r@.name == name@,
            r@.value == value@,
    {
        Attr { name: name.to_owned(), value: value.to_owned() }
    }
}

/// An element node: local name, namespace, attributes and children.
#[derive(Debug, PartialEq, Eq)]
pub struct Element {
    pub name: String,
    pub ns: String,
    pub attrs: Vec<Attr>,
    pub children: Vec<Node>,
}

/// A node of the tree.
#[derive(Debug, PartialEq, Eq)]
pub enum Node {
    Element(Element),
    Text(String),
    Comment(String),
}

/// A whole document: the children of the document root.
#[derive(Debug, PartialEq, Eq)]
pub struct Document {
    pub children: Vec<Node>,
}

/// The ghost image of an [`Element`].
#[verifier::ext_equal]
pub struct ElementModel {
    pub name: Seq<char>,
    pub ns: Seq<char>,
    pub attrs: Seq<AttrModel>,
    pub children: Seq<NodeModel>,
}

/// The ghost image of a [`Node`].
#[verifier::ext_equal]
pub enum NodeModel {
    Element(ElementModel),
    Text(Seq<char>),
    Comment(Seq<char>),
}

/// The ghost image of a sequence of attributes.
pub open spec fn attrs_view(attrs: Seq<Attr>) -> Seq<AttrModel> {
    attrs.map_values(|a: Attr| a@)
}

/// The ghost image of one node.
pub open spec fn node_view(n: Node) -> NodeModel
    decreases n,
{
    match n {
        Node::Element(e) => NodeModel::Element(ElementModel {
            name: e.name@,
            ns: e.ns@,
            attrs: attrs_view(e.attrs@),
            children: nodes_view(e.children@),
        }),
        Node::Text(t) => NodeModel::Text(t@),
        Node::Comment(t) => NodeModel::Comment(t@),
    }
}

/// The ghost image of a sequence of nodes.
pub open spec fn nodes_view(s: Seq<Node>) -> Seq<NodeModel>
    decreases s,
{
    if s.len() == 0 {
        Seq::empty()
    } else {
        seq![node_view(s.first())] + nodes_view(s.drop_first())
    }
}

impl View for Node {
    type V = NodeModel;

    open spec fn view(&self) -> NodeModel {
        node_view(*self)
    }
}

impl View for Document {
    type V = Seq<NodeModel>;

    open spec fn view(&self) -> Seq<NodeModel> {
        nodes_view(self.children@)
    }
}

impl NodeModel {
    /// Whether this node is an element.
    pub open spec fn is_element(self) -> bool {
        self is Element
    }

    /// The element data of an element node.
    pub open spec fn elem(self) -> ElementModel
        recommends
            self is Element,
    {
        self->Element_0
    }
}

/// `nodes_view` distributes over concatenation.
pub proof fn lemma_nodes_view_concat(a: Seq<Node>, b: Seq<Node>)
    ensures
        nodes_view(a + b) == nodes_view(a) + nodes_view(b),
    decreases a,
{
    if a.len() == 0 {
        assert(a + b =~= b);
        assert(nodes_view(a) + nodes_view(b) =~= nodes_view(b));
    } else {
        lemma_nodes_view_concat(a.drop_first(), b);
        assert((a + b).drop_first() =~= a.drop_first() + b);
        assert(nodes_view(a + b) =~= nodes_view(a) + nodes_view(b));
    }
}

/// The view of a sequence of nodes has the same length, element by element.
pub proof fn lemma_nodes_view_len(s: Seq<Node>)
    ensures
        nodes_view(s).len() == s.len(),
        forall|i: int| 0 <= i < s.len() ==> nodes_view(s)[i] == node_view(s[i]),
    decreases s,
{
    if s.len() > 0 {
        lemma_nodes_view_len(s.drop_first());
    }
}

/// Whether a string holds the same characters as a string slice.
pub fn string_eq_str(a: &String, b: &str) -> (r: bool)
    ensures
        r == (a@ == b@),
{
    let bs: String = b.to_owned();
    *a == bs
}

/// The text content of a node: the concatenation of every text node in its
/// subtree, in document order. Comments contribute nothing.
pub open spec fn spec_text_node(n: NodeModel) -> Seq<char>
    decreases n,
{
    match n {
        NodeModel::Element(e) => spec_text_nodes(e.children),
        NodeModel::Text(t) => t,
        NodeModel::Comment(_) => Seq::empty(),
    }
}

/// The concatenated text content of a sequence of nodes.
pub open spec fn spec_text_nodes(s: Seq<NodeModel>) -> Seq<char>
    decreases s,
{
    if s.len() == 0 {
        Seq::empty()
    } else {
        spec_text_nodes(s.drop_last()) + spec_text_node(s.last())
    }
}

/// The value of the first attribute named `key`, if any.
pub open spec fn spec_attr_value_of(attrs: Seq<AttrModel>, key: Seq<char>) -> Option<Seq<char>>
    decreases attrs,
{
    if attrs.len() == 0 {
        None
    } else if attrs.first().name == key {
        Some(attrs.first().value)
    } else {
        spec_attr_value_of(attrs.drop_first(), key)
    }
}

impl Node {
    /// The text content of this node's subtree, in document order.
    pub fn text(&self) -> (r: String)
        ensures
            r@ == spec_text_node(self@),
        decreases self,
    {
        match self {
            Node::Element(e) => nodes_text(&e.children),
            Node::Text(t) => t.clone(),
            Node::Comment(_) => String::new(),
        }
    }

    /// The value of this element's first attribute named `key`, or `None`
    /// where there is none or the node is no element.
    pub fn attr(&self, key: &str) -> (r: Option<String>)
        ensures
            match r {
                Some(v) => self@ is Element && spec_attr_value_of(self@.elem().attrs, key@)
                    == Some(v@),
                None => !(self@ is Element) || spec_attr_value_of(self@.elem().attrs, key@)
                    is None,
            },
    {
        match self {
            Node::Element(e) => {
                let ghost all = self@.elem().attrs;
                let mut i: usize = 0;
                proof {
                    assert(all.skip(0) =~= all);
                }
                while i < e.attrs.len()
                    invariant
                        i <= e.attrs@.len(),
                        self@ is Element,
                        all == self@.elem().attrs,
                        all == attrs_view(e.attrs@),
                        all.len() == e.attrs@.len(),
                        spec_attr_value_of(all, key@) == spec_attr_value_of(
                            all.skip(i as int),
                            key@,
                        ),
                    decreases e.attrs@.len() - i,
                {
                    let a = &e.attrs[i];
                    proof {
                        assert(all.skip(i as int).first() == a@);
                    }
                    if string_eq_str(&a.name, key) {
                        let v = a.value.clone();
                        proof {
                            assert(a@.name == key@);
                            assert(all.skip(i as int).len() > 0);
                            assert(spec_attr_value_of(all.skip(i as int), key@) == Some(a@.value));
                            assert(v@ == a@.value);
                        }
                        return Some(v);
                    }
                    proof {
                        assert(all.skip(i as int).drop_first() =~= all.skip(i + 1));
                    }
                    i = i + 1;
                }
                proof {
                    assert(all.skip(i as int).len() == 0);
                }
                None
            },
            _ => None,
        }
    }
}

/// The concatenated text content of a list of nodes, in order.
pub fn nodes_text(nodes: &Vec<Node>) -> (r: String)
    ensures
        r@ == spec_text_nodes(nodes_view(nodes@)),
    decreases nodes,
{
    let mut acc = String::new();
    let mut i: usize = 0;
    proof {
        lemma_nodes_view_len(nodes@);
    }
    while i < nodes.len()
        invariant
            i <= nodes@.len(),
            nodes_view(nodes@).len() == nodes@.len(),
            forall|j: int| 0 <= j < nodes@.len() ==> nodes_view(nodes@)[j] == node_view(nodes@[j]),
            acc@ == spec_text_nodes(nodes_view(nodes@).take(i as int)),
        decreases nodes@.len() - i,
    {
        assert(decreases_to!(nodes => nodes@[i as int]));
        let piece = nodes[i].text();
        acc.append(piece.as_str());
        proof {
            assert(nodes_view(nodes@).take(i + 1).drop_last() =~= nodes_view(nodes@).take(
                i as int,
            ));
            assert(nodes_view(nodes@).take(i + 1).last() == nodes_view(nodes@)[i as int]);
        }
        i = i + 1;
    }
    proof {
        assert(nodes_view(nodes@).take(i as int) =~= nodes_view(nodes@));
    }
    acc
}

} // verus!
