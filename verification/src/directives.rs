//! The directive engine: the two tree-rewrite algorithms and their ghost
//! definitions.
//!
//! Traversal is depth-first: a node's descendants are sanitized before the
//! node's own keep-or-unwrap decision takes effect, so that the children of
//! an unwrapped node are already sanitized when they are promoted into its
//! place. A remove match deletes a subtree without descending into it.

use vstd::prelude::*;

use crate::traits::{Directive, SanitizeDirective, SanitizePolicy};
use crate::tree::{attrs_view, node_view, nodes_view, string_eq_str, Attr, AttrModel, Element,
    ElementModel, Node, NodeModel, lemma_nodes_view_concat, lemma_nodes_view_len};

verus! {

/// Whether a local name is a protected root name: such an element is never
/// removed or unwrapped under the restrictive directive, whatever the rules
/// say.
pub open spec fn spec_protected(name: Seq<char>) -> bool {
    name == "html"@ || name == "head"@ || name == "body"@
}

/// Whether the element survives as itself (rather than being unwrapped),
/// once remove rules and root protection did not apply.
pub open spec fn spec_keep<P: SanitizePolicy>(p: &P, d: Directive, n: NodeModel) -> bool {
    match d {
        Directive::Permissive => !p.spec_exclude(n),
        Directive::Restrictive => p.spec_exclude(n),
    }
}

/// The attributes a kept element retains. Under the permissive directive a
/// matching attribute is removed; under the restrictive directive only
/// matching attributes are retained, and with no attribute rules at all
/// every attribute is stripped. The node handed to the rules is the element
/// as it stood before sanitization.
pub open spec fn spec_filter_attrs<P: SanitizePolicy>(
    p: &P,
    d: Directive,
    ctx: NodeModel,
    attrs: Seq<AttrModel>,
) -> Seq<AttrModel>
    decreases attrs.len(),
{
    if d is Restrictive && !p.spec_has_attr_rules() {
        Seq::empty()
    } else if attrs.len() == 0 {
        Seq::empty()
    } else {
        let rest = spec_filter_attrs(p, d, ctx, attrs.drop_last());
        let m = p.spec_exclude_attr(ctx, attrs.last());
        let keep = if d is Permissive {
            !m
        } else {
            m
        };
        if keep {
            rest + seq![attrs.last()]
        } else {
            rest
        }
    }
}

/// What one node contributes to the sanitized output: itself sanitized, its
/// sanitized children (an unwrap), or nothing (a removal). Text and comment
/// nodes pass through untouched.
pub open spec fn spec_sanitize_node<P: SanitizePolicy>(
    p: &P,
    d: Directive,
    n: NodeModel,
) -> Seq<NodeModel>
    decreases n,
{
    match n {
        NodeModel::Element(e) => {
            if d is Restrictive && spec_protected(e.name) {
                seq![
                    NodeModel::Element(ElementModel {
                        name: e.name,
                        ns: e.ns,
                        attrs: spec_filter_attrs(p, d, n, e.attrs),
                        children: spec_sanitize_nodes(p, d, e.children),
                    })
                ]
            } else if p.spec_remove(n) {
                Seq::empty()
            } else {
                let sc = spec_sanitize_nodes(p, d, e.children);
                if spec_keep(p, d, n) {
                    seq![
                        NodeModel::Element(ElementModel {
                            name: e.name,
                            ns: e.ns,
                            attrs: spec_filter_attrs(p, d, n, e.attrs),
                            children: sc,
                        })
                    ]
                } else {
                    sc
                }
            }
        },
        _ => seq![n],
    }
}

/// The sanitized form of a sequence of sibling nodes: the concatenation of
/// what each node contributes, in the original order.
pub open spec fn spec_sanitize_nodes<P: SanitizePolicy>(
    p: &P,
    d: Directive,
    s: Seq<NodeModel>,
) -> Seq<NodeModel>
    decreases s,
{
    if s.len() == 0 {
        Seq::empty()
    } else {
        spec_sanitize_node(p, d, s.first()) + spec_sanitize_nodes(p, d, s.drop_first())
    }
}

/// Whether the node is an element.
pub fn node_is_element(node: &Node) -> (r: bool)
    ensures
        r == node@.is_element(),
{
    match node {
        Node::Element(_) => true,
        _ => false,
    }
}

/// Whether the node is an element bearing a protected root name.
pub fn node_is_protected(node: &Node) -> (r: bool)
    ensures
        r == (node@.is_element() && spec_protected(node@.elem().name)),
{
    match node {
        Node::Element(e) => string_eq_str(&e.name, "html") || string_eq_str(&e.name, "head")
            || string_eq_str(&e.name, "body"),
        _ => false,
    }
}

/// Copies an attribute.
fn attr_clone(a: &Attr) -> (r: Attr)
    ensures
        r == *a,
{
    Attr { name: a.name.clone(), value: a.value.clone() }
}

/// Computes the attributes a kept element retains, per
/// [`spec_filter_attrs`].
fn filter_attrs_of<P: SanitizePolicy>(p: &P, d: Directive, node: &Node) -> (out: Vec<Attr>)
    requires
        node@ is Element,
    ensures
        attrs_view(out@) == spec_filter_attrs(p, d, node@, node@.elem().attrs),
{
    let mut out: Vec<Attr> = Vec::new();
    if d == Directive::Restrictive && !p.has_attrs_to_exclude() {
        assert(attrs_view(out@) =~= spec_filter_attrs(p, d, node@, node@.elem().attrs));
        return out;
    }
    match node {
        Node::Element(e) => {
            let ghost all = node@.elem().attrs;
            let mut i: usize = 0;
            assert(attrs_view(out@) =~= spec_filter_attrs(p, d, node@, all.take(0)));
            while i < e.attrs.len()
                invariant
                    i <= e.attrs@.len(),
                    node@ is Element,
                    all == node@.elem().attrs,
                    all == attrs_view(e.attrs@),
                    all.len() == e.attrs@.len(),
                    !(d is Restrictive && !p.spec_has_attr_rules()),
                    attrs_view(out@) == spec_filter_attrs(p, d, node@, all.take(i as int)),
                decreases e.attrs@.len() - i,
            {
                let a = &e.attrs[i];
                let m = p.should_exclude_attr(node, a);
                let keep = if d == Directive::Permissive {
                    !m
                } else {
                    m
                };
                proof {
                    assert(all.take(i + 1).drop_last() =~= all.take(i as int));
                    assert(all.take(i + 1).last() == a@);
                }
                if keep {
                    let ghost prev = out@;
                    out.push(attr_clone(a));
                    proof {
                        assert(attrs_view(out@) =~= attrs_view(prev) + seq![a@]);
                    }
                }
                i = i + 1;
            }
            assert(all.take(i as int) =~= all);
            out
        },
        _ => out,
    }
}


/// Sanitizes one node, returning what it contributes to its parent's
/// children, per [`spec_sanitize_node`].
pub fn sanitize_one<P: SanitizePolicy>(p: &P, d: Directive, node: Node) -> (out: Vec<Node>)
    ensures
        nodes_view(out@) == spec_sanitize_node(p, d, node@),
    decreases node,
{
    let is_elem = node_is_element(&node);
    let prot = d == Directive::Restrictive && node_is_protected(&node);
    let remove = is_elem && !prot && p.should_remove(&node);
    let keep = prot || (if d == Directive::Permissive {
        !p.should_exclude(&node)
    } else {
        p.should_exclude(&node)
    });
    let kept_attrs = if is_elem && !remove && keep {
        filter_attrs_of(p, d, &node)
    } else {
        Vec::new()
    };
    let ghost nv = node@;
    match node {
        Node::Element(e) => {
            if remove {
                let out: Vec<Node> = Vec::new();
                assert(nodes_view(out@) =~= spec_sanitize_node(p, d, nv));
                return out;
            }
            let Element { name, ns, attrs: _, children } = e;
            assert(decreases_to!(node => children@));
            let sc = sanitize_vec(p, d, children);
            if keep {
                let mut out: Vec<Node> = Vec::new();
                out.push(Node::Element(Element { name, ns, attrs: kept_attrs, children: sc }));
                proof {
                    assert(out@.drop_first() =~= Seq::<Node>::empty());
                    assert(nodes_view(out@.drop_first()) =~= Seq::<NodeModel>::empty());
                    assert(nodes_view(out@) =~= seq![node_view(out@[0])]);
                    assert(node_view(out@[0]) == spec_sanitize_node(p, d, nv)[0]);
                    assert(nodes_view(out@) =~= spec_sanitize_node(p, d, nv));
                }
                out
            } else {
                assert(nodes_view(sc@) =~= spec_sanitize_node(p, d, nv));
                sc
            }
        },
        other => {
            let mut out: Vec<Node> = Vec::new();
            out.push(other);
            proof {
                assert(out@.drop_first() =~= Seq::<Node>::empty());
                assert(nodes_view(out@.drop_first()) =~= Seq::<NodeModel>::empty());
                assert(nodes_view(out@) =~= seq![node_view(out@[0])]);
                assert(nodes_view(out@) =~= spec_sanitize_node(p, d, nv));
            }
            out
        },
    }
}

/// Sanitizes a sequence of sibling nodes, per [`spec_sanitize_nodes`].
pub fn sanitize_vec<P: SanitizePolicy>(p: &P, d: Directive, nodes: Vec<Node>) -> (out: Vec<Node>)
    ensures
        nodes_view(out@) == spec_sanitize_nodes(p, d, nodes_view(nodes@)),
    decreases nodes@,
{
    let mut nodes = nodes;
    if nodes.len() == 0 {
        assert(nodes_view(nodes@) =~= Seq::<NodeModel>::empty());
        return nodes;
    }
    let ghost orig = nodes@;
    let first = nodes.remove(0);
    proof {
        assert(decreases_to!(orig => orig[0]));
        assert(orig.remove(0) =~= orig.subrange(1, orig.len() as int));
        assert(decreases_to!(orig => orig.subrange(1, orig.len() as int)));
        assert(nodes@ =~= orig.drop_first());
    }
    let mut out = sanitize_one(p, d, first);
    let mut rest = sanitize_vec(p, d, nodes);
    let ghost out_prev = out@;
    let ghost rest_prev = rest@;
    out.append(&mut rest);
    proof {
        lemma_nodes_view_concat(out_prev, rest_prev);
        assert(nodes_view(orig).first() == first@);
        assert(nodes_view(orig).drop_first() =~= nodes_view(orig.drop_first()));
        assert(nodes_view(out@) =~= spec_sanitize_nodes(p, d, nodes_view(orig)));
    }
    out
}

/// Merges adjacent text nodes, recursively through the whole forest. Two
/// neighbouring text nodes become one holding the concatenated text; other
/// nodes, and attributes, are untouched.
pub open spec fn spec_normalize(s: Seq<NodeModel>) -> Seq<NodeModel>
    decreases s,
{
    if s.len() == 0 {
        Seq::empty()
    } else {
        let rest = spec_normalize(s.drop_first());
        match s.first() {
            NodeModel::Element(e) => seq![
                NodeModel::Element(ElementModel {
                    name: e.name,
                    ns: e.ns,
                    attrs: e.attrs,
                    children: spec_normalize(e.children),
                })
            ] + rest,
            NodeModel::Text(t) => {
                if rest.len() > 0 && rest.first() is Text {
                    seq![NodeModel::Text(t + rest.first()->Text_0)] + rest.drop_first()
                } else {
                    seq![NodeModel::Text(t)] + rest
                }
            },
            NodeModel::Comment(c) => seq![NodeModel::Comment(c)] + rest,
        }
    }
}

/// Takes the first node out of `v` if it is a text node.
fn take_leading_text(v: &mut Vec<Node>) -> (r: Option<String>)
    ensures
        match r {
            Some(t) => old(v)@.len() > 0 && node_view(old(v)@[0]) is Text && t@ == node_view(
                old(v)@[0],
            )->Text_0 && final(v)@ == old(v)@.drop_first(),
            None => final(v)@ == old(v)@ && (old(v)@.len() == 0 || !(node_view(old(v)@[0]) is Text)),
        },
{
    if v.len() == 0 {
        return None;
    }
    let is_text = match &v[0] {
        Node::Text(_) => true,
        _ => false,
    };
    if !is_text {
        return None;
    }
    let first = v.remove(0);
    match first {
        Node::Text(t) => Some(t),
        _ => None,
    }
}

/// Merges adjacent text nodes of a forest, per [`spec_normalize`].
pub fn normalize_vec(nodes: Vec<Node>) -> (out: Vec<Node>)
    ensures
        nodes_view(out@) == spec_normalize(nodes_view(nodes@)),
    decreases nodes@,
{
    let mut nodes = nodes;
    if nodes.len() == 0 {
        assert(nodes_view(nodes@) =~= Seq::<NodeModel>::empty());
        return nodes;
    }
    let ghost orig = nodes@;
    let first = nodes.remove(0);
    proof {
        assert(orig.remove(0) =~= orig.subrange(1, orig.len() as int));
        assert(decreases_to!(orig => orig.subrange(1, orig.len() as int)));
        assert(nodes@ =~= orig.drop_first());
    }
    let mut rest = normalize_vec(nodes);
    proof {
        assert(nodes_view(orig).first() == first@);
        assert(nodes_view(orig).drop_first() =~= nodes_view(orig.drop_first()));
        lemma_nodes_view_len(rest@);
    }
    match first {
        Node::Element(e) => {
            let Element { name, ns, attrs, children } = e;
            proof {
                assert(decreases_to!(orig => orig[0]));
                assert(decreases_to!(orig => children@));
            }
            let nc = normalize_vec(children);
            let mut out: Vec<Node> = Vec::new();
            out.push(Node::Element(Element { name, ns, attrs, children: nc }));
            let ghost out_prev = out@;
            let ghost rest_prev = rest@;
            out.append(&mut rest);
            proof {
                lemma_nodes_view_concat(out_prev, rest_prev);
                lemma_nodes_view_len(out_prev);
                assert(nodes_view(out_prev) =~= seq![node_view(out_prev[0])]);
                assert(nodes_view(out@) =~= spec_normalize(nodes_view(orig)));
            }
            out
        },
        Node::Text(t) => {
            let ghost rest_before = rest@;
            match take_leading_text(&mut rest) {
                Some(u) => {
                    let ghost rest_prev = rest@;
                    let merged = t.concat(u.as_str());
                    let mut out: Vec<Node> = Vec::new();
                    out.push(Node::Text(merged));
                    let ghost out_prev = out@;
                    out.append(&mut rest);
                    proof {
                        lemma_nodes_view_concat(out_prev, rest_prev);
                        lemma_nodes_view_len(out_prev);
                        assert(nodes_view(out_prev) =~= seq![node_view(out_prev[0])]);
                        lemma_nodes_view_len(rest_before);
                        assert(nodes_view(rest_before).first() == node_view(rest_before[0]));
                        assert(nodes_view(rest_before).drop_first() =~= nodes_view(
                            rest_before.drop_first(),
                        ));
                        assert(nodes_view(out@) =~= spec_normalize(nodes_view(orig)));
                    }
                    out
                },
                None => {
                    let ghost rest_prev = rest@;
                    let mut out: Vec<Node> = Vec::new();
                    out.push(Node::Text(t));
                    let ghost out_prev = out@;
                    out.append(&mut rest);
                    proof {
                        lemma_nodes_view_concat(out_prev, rest_prev);
                        lemma_nodes_view_len(out_prev);
                        assert(nodes_view(out_prev) =~= seq![node_view(out_prev[0])]);
                        lemma_nodes_view_len(rest_prev);
                        assert(nodes_view(out@) =~= spec_normalize(nodes_view(orig)));
                    }
                    out
                },
            }
        },
        Node::Comment(c) => {
            let ghost rest_prev = rest@;
            let mut out: Vec<Node> = Vec::new();
            out.push(Node::Comment(c));
            let ghost out_prev = out@;
            out.append(&mut rest);
            proof {
                lemma_nodes_view_concat(out_prev, rest_prev);
                lemma_nodes_view_len(out_prev);
                assert(nodes_view(out_prev) =~= seq![node_view(out_prev[0])]);
                assert(nodes_view(out@) =~= spec_normalize(nodes_view(orig)));
            }
            out
        },
    }
}

/// The children of a scope node once one full sanitize call finishes: the
/// empty permissive policy is a no-op; otherwise the directive pass runs and
/// adjacent text nodes left by unwrapping are merged.
pub open spec fn spec_sanitized_children<P: SanitizePolicy>(
    p: &P,
    d: Directive,
    children: Seq<NodeModel>,
) -> Seq<NodeModel> {
    if d is Permissive && p.spec_is_empty() {
        children
    } else {
        spec_normalize(spec_sanitize_nodes(p, d, children))
    }
}

/// One full sanitize call on a scope node: the node itself stands, its
/// descendants are rewritten.
pub open spec fn spec_sanitize_subtree<P: SanitizePolicy>(
    p: &P,
    d: Directive,
    n: NodeModel,
) -> NodeModel {
    match n {
        NodeModel::Element(e) => NodeModel::Element(
            ElementModel {
                name: e.name,
                ns: e.ns,
                attrs: e.attrs,
                children: spec_sanitized_children(p, d, e.children),
            },
        ),
        other => other,
    }
}

/// The directive pass alone on a scope node, before normalization.
pub open spec fn spec_pass_subtree<P: SanitizePolicy>(
    p: &P,
    d: Directive,
    n: NodeModel,
) -> NodeModel {
    match n {
        NodeModel::Element(e) => NodeModel::Element(
            ElementModel {
                name: e.name,
                ns: e.ns,
                attrs: e.attrs,
                children: spec_sanitize_nodes(p, d, e.children),
            },
        ),
        other => other,
    }
}

/// Text-node normalization on a scope node.
pub open spec fn spec_normalize_subtree(n: NodeModel) -> NodeModel {
    match n {
        NodeModel::Element(e) => NodeModel::Element(
            ElementModel {
                name: e.name,
                ns: e.ns,
                attrs: e.attrs,
                children: spec_normalize(e.children),
            },
        ),
        other => other,
    }
}

/// An element's own attributes after the directive's attribute filtering.
pub open spec fn spec_filter_attrs_subtree<P: SanitizePolicy>(
    p: &P,
    d: Directive,
    n: NodeModel,
) -> NodeModel {
    match n {
        NodeModel::Element(e) => NodeModel::Element(
            ElementModel {
                name: e.name,
                ns: e.ns,
                attrs: spec_filter_attrs(p, d, n, e.attrs),
                children: e.children,
            },
        ),
        other => other,
    }
}

/// Runs the directive pass over the children of `node`, in place.
pub fn sanitize_children_of<P: SanitizePolicy>(p: &P, d: Directive, node: &mut Node)
    ensures
        final(node)@ == spec_pass_subtree(p, d, old(node)@),
{
    let mut tmp = Node::Text(String::new());
    core::mem::swap(node, &mut tmp);
    match tmp {
        Node::Element(e) => {
            let Element { name, ns, attrs, children } = e;
            let sc = sanitize_vec(p, d, children);
            *node = Node::Element(Element { name, ns, attrs, children: sc });
        },
        other => {
            *node = other;
        },
    }
}

/// Merges adjacent text nodes below `node`, in place.
pub fn normalize_node(node: &mut Node)
    ensures
        final(node)@ == spec_normalize_subtree(old(node)@),
{
    let mut tmp = Node::Text(String::new());
    core::mem::swap(node, &mut tmp);
    match tmp {
        Node::Element(e) => {
            let Element { name, ns, attrs, children } = e;
            let nc = normalize_vec(children);
            *node = Node::Element(Element { name, ns, attrs, children: nc });
        },
        other => {
            *node = other;
        },
    }
}

/// Replaces the attributes of `node` with what the directive's attribute
/// filtering keeps, in place.
pub fn filter_attrs_in_place<P: SanitizePolicy>(p: &P, d: Directive, node: &mut Node)
    ensures
        final(node)@ == spec_filter_attrs_subtree(p, d, old(node)@),
{
    let is_elem = node_is_element(node);
    if !is_elem {
        return;
    }
    let kept = filter_attrs_of(p, d, node);
    let mut tmp = Node::Text(String::new());
    core::mem::swap(node, &mut tmp);
    match tmp {
        Node::Element(e) => {
            let Element { name, ns, attrs: _, children } = e;
            *node = Node::Element(Element { name, ns, attrs: kept, children });
        },
        other => {
            *node = other;
        },
    }
}

/// The default-allow directive: everything is kept unless a rule names it.
#[derive(Debug, Clone, Copy)]
pub struct Permissive;

/// The default-deny directive: everything is unwrapped unless a rule or the
/// protected-root exemption names it, and only rule-matched attributes stay.
#[derive(Debug, Clone, Copy)]
pub struct Restrictive;

impl SanitizeDirective for Permissive {
    open spec fn spec_kind() -> Directive {
        Directive::Permissive
    }

    fn kind() -> (d: Directive) {
        Directive::Permissive
    }

    fn sanitize_node<P: SanitizePolicy>(policy: &P, node: &mut Node) {
        sanitize_children_of(policy, Directive::Permissive, node);
    }

    fn sanitize_node_attrs<P: SanitizePolicy>(policy: &P, node: &mut Node) {
        filter_attrs_in_place(policy, Directive::Permissive, node);
    }
}

impl SanitizeDirective for Restrictive {
    open spec fn spec_kind() -> Directive {
        Directive::Restrictive
    }

    fn kind() -> (d: Directive) {
        Directive::Restrictive
    }

    fn sanitize_node<P: SanitizePolicy>(policy: &P, node: &mut Node) {
        sanitize_children_of(policy, Directive::Restrictive, node);
    }

    fn sanitize_node_attrs<P: SanitizePolicy>(policy: &P, node: &mut Node) {
        filter_attrs_in_place(policy, Directive::Restrictive, node);
    }
}

} // verus!
