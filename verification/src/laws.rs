//! The engine's guarantees as proved theorems: the no-op of the empty
//! permissive policy, removal taking precedence over exclusion, the order
//! that unwrapping preserves, the protection of root elements under the
//! restrictive directive, and idempotence.

use vstd::prelude::*;

use crate::directives::{
    spec_filter_attrs, spec_keep, spec_normalize, spec_protected, spec_sanitize_node,
    spec_sanitize_nodes, spec_sanitized_children,
};
use crate::plugin_policy::{AttrChecker, NodeChecker};
use crate::traits::{Directive, SanitizePolicy};
use crate::tree::{AttrModel, ElementModel, NodeModel};

verus! {

/// Under the permissive directive, a policy with no rules at all leaves a
/// forest exactly as it stands: no node is removed, reordered or merged.
pub proof fn lemma_empty_permissive_no_op<P: SanitizePolicy>(p: &P, nodes: Seq<NodeModel>)
    requires
        p.spec_is_empty(),
    ensures
        spec_sanitized_children(p, Directive::Permissive, nodes) == nodes,
{
}

/// The directive pass alone, under the permissive directive with an empty
/// policy, is already the identity: the no-op fast path changes nothing of
/// the outcome.
pub proof fn lemma_empty_permissive_pass_identity<P: SanitizePolicy>(p: &P, nodes: Seq<NodeModel>)
    requires
        p.spec_is_empty(),
    ensures
        spec_sanitize_nodes(p, Directive::Permissive, nodes) == nodes,
    decreases nodes,
{
    let d = Directive::Permissive;
    if nodes.len() == 0 {
        assert(spec_sanitize_nodes(p, d, nodes) =~= nodes);
    } else {
        let n = nodes.first();
        lemma_empty_permissive_pass_identity(p, nodes.drop_first());
        match n {
            NodeModel::Element(e) => {
                p.lemma_empty_matches_nothing(n, AttrModel { name: seq![], value: seq![] });
                lemma_empty_permissive_pass_identity(p, e.children);
                lemma_empty_permissive_filter_identity(p, n, e.attrs);
                assert(spec_sanitize_node(p, d, n)[0] =~~= n);
                assert(spec_sanitize_node(p, d, n) =~~= seq![n]);
            },
            _ => {
                assert(spec_sanitize_node(p, d, n) == seq![n]);
            },
        }
        assert(spec_sanitize_node(p, d, nodes.first()) == seq![nodes.first()]);
        assert(spec_sanitize_nodes(p, d, nodes) =~= seq![nodes.first()]
            + nodes.drop_first());
        assert(seq![nodes.first()] + nodes.drop_first() =~= nodes);
    }
}

/// Attribute filtering under the permissive directive with an empty policy
/// keeps every attribute.
proof fn lemma_empty_permissive_filter_identity<P: SanitizePolicy>(
    p: &P,
    ctx: NodeModel,
    attrs: Seq<AttrModel>,
)
    requires
        p.spec_is_empty(),
    ensures
        spec_filter_attrs(p, Directive::Permissive, ctx, attrs) == attrs,
    decreases attrs.len(),
{
    let d = Directive::Permissive;
    if attrs.len() == 0 {
        assert(spec_filter_attrs(p, d, ctx, attrs) =~= attrs);
    } else {
        lemma_empty_permissive_filter_identity(p, ctx, attrs.drop_last());
        p.lemma_empty_matches_nothing(ctx, attrs.last());
        assert(spec_filter_attrs(p, d, ctx, attrs) =~= attrs.drop_last() + seq![attrs.last()]);
        assert(attrs.drop_last() + seq![attrs.last()] =~= attrs);
    }
}

/// Removal takes precedence over exclusion: an element matching a remove
/// rule contributes nothing to the output, children included, also where an
/// exclude rule matches it too. The one exception is a protected root under
/// the restrictive directive, which no rule removes.
pub proof fn lemma_remove_precedes_exclude<P: SanitizePolicy>(p: &P, d: Directive, n: NodeModel)
    requires
        n is Element,
        p.spec_remove(n),
        p.spec_exclude(n),
        !(d is Restrictive && spec_protected(n.elem().name)),
    ensures
        spec_sanitize_node(p, d, n) == Seq::<NodeModel>::empty(),
{
}

/// Unwrap ordering: among siblings `[before, excluded, after]` where
/// `excluded` is an element that the directive unwraps, and the policy
/// leaves `before`, `after` and the children of `excluded` as they stand,
/// the result is `[before, c1, .., ck, after]` in exactly that order.
pub proof fn lemma_unwrap_ordering<P: SanitizePolicy>(
    p: &P,
    d: Directive,
    before: NodeModel,
    excluded: NodeModel,
    after: NodeModel,
)
    requires
        excluded is Element,
        !p.spec_remove(excluded),
        !spec_keep(p, d, excluded),
        !(d is Restrictive && spec_protected(excluded.elem().name)),
        spec_sanitize_node(p, d, before) == seq![before],
        spec_sanitize_node(p, d, after) == seq![after],
        spec_sanitize_nodes(p, d, excluded.elem().children) == excluded.elem().children,
    ensures
        spec_sanitize_nodes(p, d, seq![before, excluded, after]) == seq![before]
            + excluded.elem().children + seq![after],
{
    let s = seq![before, excluded, after];
    assert(s.drop_first() =~= seq![excluded, after]);
    assert(seq![excluded, after].drop_first() =~= seq![after]);
    assert(seq![after].drop_first() =~= Seq::<NodeModel>::empty());
    assert(spec_sanitize_nodes(p, d, Seq::<NodeModel>::empty()) =~= Seq::<NodeModel>::empty());
    assert(spec_sanitize_node(p, d, excluded) == excluded.elem().children);
    assert(spec_sanitize_nodes(p, d, seq![after]) =~= seq![after]);
    assert(spec_sanitize_nodes(p, d, seq![excluded, after]) =~= excluded.elem().children
        + seq![after]);
    assert(spec_sanitize_nodes(p, d, s) =~= seq![before] + excluded.elem().children + seq![after]);
}

/// Root protection under the restrictive directive: a protected element
/// among the scope's children survives sanitization under its own name, with
/// its children sanitized in turn, whatever the rules say.
pub proof fn lemma_restrictive_protects_roots<P: SanitizePolicy>(
    p: &P,
    s: Seq<NodeModel>,
    i: int,
)
    requires
        0 <= i < s.len(),
        s[i] is Element,
        spec_protected(s[i].elem().name),
    ensures
        exists|j: int|
            {
                &&& 0 <= j < spec_sanitize_nodes(p, Directive::Restrictive, s).len()
                &&& (#[trigger] spec_sanitize_nodes(p, Directive::Restrictive, s)[j]) is Element
                &&& spec_sanitize_nodes(p, Directive::Restrictive, s)[j].elem().name
                    == s[i].elem().name
                &&& spec_sanitize_nodes(p, Directive::Restrictive, s)[j].elem().children
                    == spec_sanitize_nodes(p, Directive::Restrictive, s[i].elem().children)
            },
    decreases i,
{
    let d = Directive::Restrictive;
    let out = spec_sanitize_nodes(p, d, s);
    assert(out == spec_sanitize_node(p, d, s.first()) + spec_sanitize_nodes(p, d, s.drop_first()));
    if i == 0 {
        let kept = spec_sanitize_node(p, d, s[0])[0];
        assert(out[0] == kept);
        assert(out[0] is Element && out[0].elem().name == s[0].elem().name && out[0].elem().children
            == spec_sanitize_nodes(p, d, s[0].elem().children));
    } else {
        lemma_restrictive_protects_roots(p, s.drop_first(), i - 1);
        let rest_out = spec_sanitize_nodes(p, d, s.drop_first());
        let j0 = choose|j: int|
            0 <= j < rest_out.len() && (#[trigger] rest_out[j]) is Element
                && rest_out[j].elem().name == s.drop_first()[i - 1].elem().name
                && rest_out[j].elem().children == spec_sanitize_nodes(
                p,
                d,
                s.drop_first()[i - 1].elem().children,
            );
        let head = spec_sanitize_node(p, d, s.first());
        assert(out[head.len() + j0] == rest_out[j0]);
        assert(s.drop_first()[i - 1] == s[i]);
    }
}

/// Text-node normalization never drops an element: an element among the
/// nodes survives under its own name, attributes untouched, with its
/// children normalized in turn.
pub proof fn lemma_normalize_keeps_elements(s: Seq<NodeModel>, i: int)
    requires
        0 <= i < s.len(),
        s[i] is Element,
    ensures
        exists|j: int|
            {
                &&& 0 <= j < spec_normalize(s).len()
                &&& (#[trigger] spec_normalize(s)[j]) is Element
                &&& spec_normalize(s)[j].elem().name == s[i].elem().name
                &&& spec_normalize(s)[j].elem().attrs == s[i].elem().attrs
                &&& spec_normalize(s)[j].elem().children == spec_normalize(s[i].elem().children)
            },
    decreases i,
{
    let out = spec_normalize(s);
    let rest = spec_normalize(s.drop_first());
    if i == 0 {
        assert(out[0] is Element && out[0].elem().name == s[0].elem().name && out[0].elem().attrs
            == s[0].elem().attrs && out[0].elem().children == spec_normalize(
            s[0].elem().children,
        ));
    } else {
        lemma_normalize_keeps_elements(s.drop_first(), i - 1);
        let j0 = choose|j: int|
            0 <= j < rest.len() && (#[trigger] rest[j]) is Element && rest[j].elem().name
                == s.drop_first()[i - 1].elem().name && rest[j].elem().attrs == s.drop_first()[i
                - 1].elem().attrs && rest[j].elem().children == spec_normalize(
                s.drop_first()[i - 1].elem().children,
            );
        assert(s.drop_first()[i - 1] == s[i]);
        match s.first() {
            NodeModel::Element(e) => {
                assert(out[1 + j0] == rest[j0]);
            },
            NodeModel::Text(t) => {
                if rest.len() > 0 && rest.first() is Text {
                    // the merged text swallows the first node of `rest`,
                    // which is no element, so the witness moves up by one
                    assert(rest[j0] is Element);
                    assert(j0 != 0);
                    assert(out[j0] == rest.drop_first()[j0 - 1]);
                    assert(rest.drop_first()[j0 - 1] == rest[j0]);
                } else {
                    assert(out[1 + j0] == rest[j0]);
                }
            },
            NodeModel::Comment(c) => {
                assert(out[1 + j0] == rest[j0]);
            },
        }
    }
}

/// Root protection for one full sanitize call under the restrictive
/// directive: a protected element among the scope's children is still there
/// afterwards, under its own name, its own children treated by the same full
/// call. Applying this lemma level by level keeps the `html`, `head` and
/// `body` elements of a well-formed document alive, whatever the rules say.
pub proof fn lemma_restrictive_root_protection<P: SanitizePolicy>(
    p: &P,
    s: Seq<NodeModel>,
    i: int,
)
    requires
        0 <= i < s.len(),
        s[i] is Element,
        spec_protected(s[i].elem().name),
    ensures
        exists|j: int|
            {
                &&& 0 <= j < spec_sanitized_children(p, Directive::Restrictive, s).len()
                &&& (#[trigger] spec_sanitized_children(p, Directive::Restrictive, s)[j])
                    is Element
                &&& spec_sanitized_children(p, Directive::Restrictive, s)[j].elem().name
                    == s[i].elem().name
                &&& spec_sanitized_children(p, Directive::Restrictive, s)[j].elem().children
                    == spec_sanitized_children(p, Directive::Restrictive, s[i].elem().children)
            },
{
    let d = Directive::Restrictive;
    let pass = spec_sanitize_nodes(p, d, s);
    lemma_restrictive_protects_roots(p, s, i);
    let j0 = choose|j: int|
        0 <= j < pass.len() && (#[trigger] pass[j]) is Element && pass[j].elem().name
            == s[i].elem().name && pass[j].elem().children == spec_sanitize_nodes(
            p,
            d,
            s[i].elem().children,
        );
    lemma_normalize_keeps_elements(pass, j0);
    let out = spec_sanitized_children(p, d, s);
    assert(out == spec_normalize(pass));
    let j1 = choose|j: int|
        0 <= j < spec_normalize(pass).len() && (#[trigger] spec_normalize(pass)[j]) is Element
            && spec_normalize(pass)[j].elem().name == pass[j0].elem().name && spec_normalize(
            pass,
        )[j].elem().attrs == pass[j0].elem().attrs && spec_normalize(pass)[j].elem().children
            == spec_normalize(pass[j0].elem().children);
    assert(out[j1] is Element && out[j1].elem().name == s[i].elem().name && out[j1].elem().children
        == spec_sanitized_children(p, d, s[i].elem().children));
}

/// A policy whose element decisions depend only on an element's local name
/// and namespace, and whose attribute decisions depend only on those and the
/// attribute itself. The name-list [`crate::Policy`] is such a policy; a
/// plugin checker that reads an element's attributes or text content need
/// not be.
pub open spec fn name_scoped_policy<P: SanitizePolicy>(p: &P) -> bool {
    &&& forall|e1: ElementModel, e2: ElementModel|
        #![trigger p.spec_exclude(NodeModel::Element(e1)), p.spec_exclude(NodeModel::Element(e2))]
        e1.name == e2.name && e1.ns == e2.ns ==> p.spec_exclude(NodeModel::Element(e1))
            == p.spec_exclude(NodeModel::Element(e2))
    &&& forall|e1: ElementModel, e2: ElementModel|
        #![trigger p.spec_remove(NodeModel::Element(e1)), p.spec_remove(NodeModel::Element(e2))]
        e1.name == e2.name && e1.ns == e2.ns ==> p.spec_remove(NodeModel::Element(e1))
            == p.spec_remove(NodeModel::Element(e2))
    &&& forall|e1: ElementModel, e2: ElementModel, a: AttrModel|
        #![trigger p.spec_exclude_attr(NodeModel::Element(e1), a), p.spec_exclude_attr(
            NodeModel::Element(e2),
            a,
        )]
        e1.name == e2.name && e1.ns == e2.ns ==> p.spec_exclude_attr(NodeModel::Element(e1), a)
            == p.spec_exclude_attr(NodeModel::Element(e2), a)
}

/// A node that one sanitize pass leaves exactly as it stands: its own
/// decisions keep it, its attributes pass the filter unchanged, and its
/// children are clean in turn.
pub open spec fn spec_clean_node<P: SanitizePolicy>(p: &P, d: Directive, n: NodeModel) -> bool
    decreases n,
{
    match n {
        NodeModel::Element(e) => {
            let prot = d is Restrictive && spec_protected(e.name);
            &&& (prot || !p.spec_remove(n))
            &&& (prot || spec_keep(p, d, n))
            &&& spec_filter_attrs(p, d, n, e.attrs) == e.attrs
            &&& spec_clean_nodes(p, d, e.children)
        },
        _ => true,
    }
}

/// A forest of clean nodes.
pub open spec fn spec_clean_nodes<P: SanitizePolicy>(p: &P, d: Directive, s: Seq<NodeModel>) -> bool
    decreases s,
{
    if s.len() == 0 {
        true
    } else {
        spec_clean_node(p, d, s.first()) && spec_clean_nodes(p, d, s.drop_first())
    }
}

/// Cleanliness distributes over concatenation.
proof fn lemma_clean_nodes_concat<P: SanitizePolicy>(
    p: &P,
    d: Directive,
    a: Seq<NodeModel>,
    b: Seq<NodeModel>,
)
    ensures
        spec_clean_nodes(p, d, a + b) == (spec_clean_nodes(p, d, a) && spec_clean_nodes(p, d, b)),
    decreases a,
{
    if a.len() == 0 {
        assert(a + b =~= b);
    } else {
        lemma_clean_nodes_concat(p, d, a.drop_first(), b);
        assert((a + b).drop_first() =~= a.drop_first() + b);
        assert((a + b).first() == a.first());
    }
}

/// Every attribute the filter lets through satisfies the directive's
/// keep-condition with the context it was filtered under.
proof fn lemma_filter_attrs_membership<P: SanitizePolicy>(
    p: &P,
    d: Directive,
    ctx: NodeModel,
    attrs: Seq<AttrModel>,
)
    ensures
        forall|k: int|
            0 <= k < spec_filter_attrs(p, d, ctx, attrs).len() ==> {
                let a = #[trigger] spec_filter_attrs(p, d, ctx, attrs)[k];
                if d is Permissive {
                    !p.spec_exclude_attr(ctx, a)
                } else {
                    p.spec_exclude_attr(ctx, a)
                }
            },
    decreases attrs.len(),
{
    if d is Restrictive && !p.spec_has_attr_rules() {
    } else if attrs.len() == 0 {
    } else {
        lemma_filter_attrs_membership(p, d, ctx, attrs.drop_last());
        let rest = spec_filter_attrs(p, d, ctx, attrs.drop_last());
        let whole = spec_filter_attrs(p, d, ctx, attrs);
        assert forall|k: int| 0 <= k < whole.len() implies {
            let a = #[trigger] whole[k];
            if d is Permissive {
                !p.spec_exclude_attr(ctx, a)
            } else {
                p.spec_exclude_attr(ctx, a)
            }
        } by {
            if k < rest.len() {
                assert(whole[k] == rest[k]);
            } else {
                assert(whole[k] == attrs.last());
            }
        }
    }
}

/// Where every attribute already satisfies the keep-condition, the filter is
/// the identity. Under the restrictive directive this needs the policy to
/// have attribute rules, else the filter empties the list.
proof fn lemma_filter_attrs_identity<P: SanitizePolicy>(
    p: &P,
    d: Directive,
    ctx: NodeModel,
    attrs: Seq<AttrModel>,
)
    requires
        d is Restrictive ==> p.spec_has_attr_rules() || attrs.len() == 0,
        forall|k: int|
            0 <= k < attrs.len() ==> {
                let a = #[trigger] attrs[k];
                if d is Permissive {
                    !p.spec_exclude_attr(ctx, a)
                } else {
                    p.spec_exclude_attr(ctx, a)
                }
            },
    ensures
        spec_filter_attrs(p, d, ctx, attrs) == attrs,
    decreases attrs.len(),
{
    if attrs.len() == 0 {
        assert(spec_filter_attrs(p, d, ctx, attrs) =~= attrs);
    } else {
        assert(forall|k: int| 0 <= k < attrs.drop_last().len() ==> #[trigger] attrs.drop_last()[k]
            == attrs[k]);
        lemma_filter_attrs_identity(p, d, ctx, attrs.drop_last());
        assert(spec_filter_attrs(p, d, ctx, attrs) =~= attrs.drop_last() + seq![attrs.last()]);
        assert(attrs.drop_last() + seq![attrs.last()] =~= attrs);
    }
}

/// For a name-scoped policy the filter does not care which element value
/// stands as context, as long as name and namespace agree.
proof fn lemma_filter_attrs_ctx<P: SanitizePolicy>(
    p: &P,
    d: Directive,
    e1: ElementModel,
    e2: ElementModel,
    attrs: Seq<AttrModel>,
)
    requires
        name_scoped_policy(p),
        e1.name == e2.name,
        e1.ns == e2.ns,
    ensures
        spec_filter_attrs(p, d, NodeModel::Element(e1), attrs) == spec_filter_attrs(
            p,
            d,
            NodeModel::Element(e2),
            attrs,
        ),
    decreases attrs.len(),
{
    if d is Restrictive && !p.spec_has_attr_rules() {
    } else if attrs.len() == 0 {
    } else {
        lemma_filter_attrs_ctx(p, d, e1, e2, attrs.drop_last());
        assert(p.spec_exclude_attr(NodeModel::Element(e1), attrs.last()) == p.spec_exclude_attr(
            NodeModel::Element(e2),
            attrs.last(),
        ));
    }
}

/// One sanitize pass of a name-scoped policy leaves only clean nodes.
proof fn lemma_sanitize_makes_clean_node<P: SanitizePolicy>(p: &P, d: Directive, n: NodeModel)
    requires
        name_scoped_policy(p),
    ensures
        spec_clean_nodes(p, d, spec_sanitize_node(p, d, n)),
    decreases n,
{
    match n {
        NodeModel::Element(e) => {
            let prot = d is Restrictive && spec_protected(e.name);
            if !prot && p.spec_remove(n) {
            } else {
                lemma_sanitize_makes_clean_nodes(p, d, e.children);
                if prot || spec_keep(p, d, n) {
                    assert(spec_sanitize_node(p, d, n).len() == 1);
                    let kept_attrs = spec_filter_attrs(p, d, n, e.attrs);
                    let e2 = ElementModel {
                        name: e.name,
                        ns: e.ns,
                        attrs: kept_attrs,
                        children: spec_sanitize_nodes(p, d, e.children),
                    };
                    let n2 = NodeModel::Element(e2);
                    assert(p.spec_remove(NodeModel::Element(e2)) == p.spec_remove(
                        NodeModel::Element(e),
                    ));
                    assert(p.spec_exclude(NodeModel::Element(e2)) == p.spec_exclude(
                        NodeModel::Element(e),
                    ));
                    lemma_filter_attrs_membership(p, d, n, e.attrs);
                    assert forall|k: int| 0 <= k < kept_attrs.len() implies p.spec_exclude_attr(
                        n,
                        #[trigger] kept_attrs[k],
                    ) == p.spec_exclude_attr(n2, kept_attrs[k]) by {
                        assert(p.spec_exclude_attr(NodeModel::Element(e), kept_attrs[k])
                            == p.spec_exclude_attr(NodeModel::Element(e2), kept_attrs[k]));
                    }
                    if d is Restrictive && !p.spec_has_attr_rules() {
                        assert(kept_attrs =~= Seq::<AttrModel>::empty());
                        assert(spec_filter_attrs(p, d, n2, kept_attrs) =~= kept_attrs);
                    } else {
                        lemma_filter_attrs_identity(p, d, n2, kept_attrs);
                    }
                    assert(spec_protected(e2.name) == spec_protected(e.name));
                    assert(spec_keep(p, d, n2) == spec_keep(p, d, n));
                    assert(spec_clean_node(p, d, n2));
                    assert(spec_sanitize_node(p, d, n) =~= seq![n2]);
                    assert(seq![n2].first() == n2);
                    assert(seq![n2].drop_first() =~= Seq::<NodeModel>::empty());
                    assert(spec_clean_nodes(p, d, Seq::<NodeModel>::empty()));
                    assert(spec_clean_nodes(p, d, seq![n2]));
                } else {
                    assert(spec_sanitize_node(p, d, n) == spec_sanitize_nodes(p, d, e.children));
                }
            }
        },
        _ => {
            assert(spec_sanitize_node(p, d, n) == seq![n]);
            assert(spec_clean_node(p, d, n));
            assert(seq![n].first() == n);
            assert(seq![n].drop_first() =~= Seq::<NodeModel>::empty());
            assert(spec_clean_nodes(p, d, Seq::<NodeModel>::empty()));
            assert(spec_clean_nodes(p, d, seq![n]));
        },
    }
}

/// One sanitize pass of a name-scoped policy leaves a clean forest.
proof fn lemma_sanitize_makes_clean_nodes<P: SanitizePolicy>(
    p: &P,
    d: Directive,
    s: Seq<NodeModel>,
)
    requires
        name_scoped_policy(p),
    ensures
        spec_clean_nodes(p, d, spec_sanitize_nodes(p, d, s)),
    decreases s,
{
    if s.len() == 0 {
    } else {
        lemma_sanitize_makes_clean_node(p, d, s.first());
        lemma_sanitize_makes_clean_nodes(p, d, s.drop_first());
        lemma_clean_nodes_concat(
            p,
            d,
            spec_sanitize_node(p, d, s.first()),
            spec_sanitize_nodes(p, d, s.drop_first()),
        );
    }
}

/// Sanitizing a clean node changes nothing.
proof fn lemma_sanitize_identity_on_clean_node<P: SanitizePolicy>(p: &P, d: Directive, n: NodeModel)
    requires
        spec_clean_node(p, d, n),
    ensures
        spec_sanitize_node(p, d, n) == seq![n],
    decreases n,
{
    match n {
        NodeModel::Element(e) => {
            lemma_sanitize_identity_on_clean_nodes(p, d, e.children);
            assert(spec_sanitize_node(p, d, n) =~~= seq![n]);
        },
        _ => {},
    }
}

/// Sanitizing a clean forest changes nothing.
proof fn lemma_sanitize_identity_on_clean_nodes<P: SanitizePolicy>(
    p: &P,
    d: Directive,
    s: Seq<NodeModel>,
)
    requires
        spec_clean_nodes(p, d, s),
    ensures
        spec_sanitize_nodes(p, d, s) == s,
    decreases s,
{
    if s.len() == 0 {
        assert(spec_sanitize_nodes(p, d, s) =~= s);
    } else {
        lemma_sanitize_identity_on_clean_node(p, d, s.first());
        lemma_sanitize_identity_on_clean_nodes(p, d, s.drop_first());
        assert(spec_sanitize_nodes(p, d, s) =~= seq![s.first()] + s.drop_first());
        assert(seq![s.first()] + s.drop_first() =~= s);
    }
}

/// Merging text nodes preserves cleanliness for a name-scoped policy: only
/// text changes, and no decision of such a policy reads it.
proof fn lemma_normalize_preserves_clean<P: SanitizePolicy>(p: &P, d: Directive, s: Seq<NodeModel>)
    requires
        name_scoped_policy(p),
        spec_clean_nodes(p, d, s),
    ensures
        spec_clean_nodes(p, d, spec_normalize(s)),
    decreases s,
{
    if s.len() == 0 {
    } else {
        assert(spec_clean_node(p, d, s.first()) && spec_clean_nodes(p, d, s.drop_first()));
        lemma_normalize_preserves_clean(p, d, s.drop_first());
        let rest = spec_normalize(s.drop_first());
        match s.first() {
            NodeModel::Element(e) => {
                let n = s.first();
                assert(spec_clean_nodes(p, d, e.children));
                lemma_normalize_preserves_clean(p, d, e.children);
                let e2 = ElementModel {
                    name: e.name,
                    ns: e.ns,
                    attrs: e.attrs,
                    children: spec_normalize(e.children),
                };
                let n2 = NodeModel::Element(e2);
                assert(p.spec_remove(NodeModel::Element(e2)) == p.spec_remove(
                    NodeModel::Element(e),
                ));
                assert(p.spec_exclude(NodeModel::Element(e2)) == p.spec_exclude(
                    NodeModel::Element(e),
                ));
                lemma_filter_attrs_ctx(p, d, e, e2, e.attrs);
                assert(spec_keep(p, d, n2) == spec_keep(p, d, n));
                assert(spec_clean_node(p, d, n2));
                assert(spec_normalize(s) =~= seq![n2] + rest);
                lemma_clean_nodes_concat(p, d, seq![n2], rest);
                assert(seq![n2].first() == n2);
                assert(seq![n2].drop_first() =~= Seq::<NodeModel>::empty());
                assert(spec_clean_nodes(p, d, Seq::<NodeModel>::empty()));
                assert(spec_clean_nodes(p, d, seq![n2]));
            },
            NodeModel::Text(t) => {
                if rest.len() > 0 && rest.first() is Text {
                    let merged = NodeModel::Text(t + rest.first()->Text_0);
                    assert(spec_normalize(s) =~= seq![merged] + rest.drop_first());
                    lemma_clean_nodes_concat(p, d, seq![merged], rest.drop_first());
                    assert(seq![merged].first() == merged);
                    assert(seq![merged].drop_first() =~= Seq::<NodeModel>::empty());
                    assert(spec_clean_nodes(p, d, Seq::<NodeModel>::empty()));
                    assert(spec_clean_node(p, d, merged));
                    assert(spec_clean_nodes(p, d, seq![merged]));
                    assert(spec_clean_nodes(p, d, rest.drop_first()));
                } else {
                    assert(spec_normalize(s) =~= seq![s.first()] + rest);
                    lemma_clean_nodes_concat(p, d, seq![s.first()], rest);
                    assert(seq![s.first()].first() == s.first());
                    assert(seq![s.first()].drop_first() =~= Seq::<NodeModel>::empty());
                    assert(spec_clean_nodes(p, d, Seq::<NodeModel>::empty()));
                    assert(spec_clean_nodes(p, d, seq![s.first()]));
                }
            },
            NodeModel::Comment(c) => {
                assert(spec_normalize(s) =~= seq![s.first()] + rest);
                lemma_clean_nodes_concat(p, d, seq![s.first()], rest);
                assert(seq![s.first()].first() == s.first());
                assert(seq![s.first()].drop_first() =~= Seq::<NodeModel>::empty());
                assert(spec_clean_nodes(p, d, Seq::<NodeModel>::empty()));
                assert(spec_clean_nodes(p, d, seq![s.first()]));
            },
        }
    }
}

/// A forest with no two adjacent text nodes, at any level.
pub open spec fn spec_normalized_nodes(s: Seq<NodeModel>) -> bool
    decreases s,
{
    if s.len() == 0 {
        true
    } else {
        &&& spec_normalized_node(s.first())
        &&& spec_normalized_nodes(s.drop_first())
        &&& !(s.len() > 1 && s[0] is Text && s[1] is Text)
    }
}

/// A node whose descendants hold no two adjacent text nodes.
pub open spec fn spec_normalized_node(n: NodeModel) -> bool
    decreases n,
{
    match n {
        NodeModel::Element(e) => spec_normalized_nodes(e.children),
        _ => true,
    }
}

/// Normalization leaves no two adjacent text nodes behind.
proof fn lemma_normalize_normalizes(s: Seq<NodeModel>)
    ensures
        spec_normalized_nodes(spec_normalize(s)),
    decreases s,
{
    if s.len() == 0 {
    } else {
        lemma_normalize_normalizes(s.drop_first());
        let rest = spec_normalize(s.drop_first());
        let o = spec_normalize(s);
        match s.first() {
            NodeModel::Element(e) => {
                lemma_normalize_normalizes(e.children);
                assert(spec_normalized_node(o.first()));
                assert(o.drop_first() =~= rest);
                assert(o.len() > 1 ==> o[1] == rest[0]);
                assert(!(o[0] is Text));
                assert(spec_normalized_nodes(o));
            },
            NodeModel::Text(t) => {
                if rest.len() > 0 && rest.first() is Text {
                    assert(o.drop_first() =~= rest.drop_first());
                    assert(spec_normalized_node(o.first()));
                    if o.len() > 1 {
                        assert(o[1] == rest.drop_first()[0]);
                        assert(rest.drop_first()[0] == rest[1]);
                        assert(!(rest[1] is Text));
                    }
                    assert(spec_normalized_nodes(o));
                } else {
                    assert(o.drop_first() =~= rest);
                    assert(spec_normalized_node(o.first()));
                    if o.len() > 1 {
                        assert(o[1] == rest[0]);
                        assert(!(rest[0] is Text));
                    }
                    assert(spec_normalized_nodes(o));
                }
            },
            NodeModel::Comment(c) => {
                assert(spec_normalized_node(o.first()));
                assert(o.drop_first() =~= rest);
                assert(o.len() > 1 ==> o[1] == rest[0]);
                assert(!(o[0] is Text));
                assert(spec_normalized_nodes(o));
            },
        }
    }
}

/// Normalizing an already normalized forest changes nothing.
proof fn lemma_normalize_identity_on_normalized(s: Seq<NodeModel>)
    requires
        spec_normalized_nodes(s),
    ensures
        spec_normalize(s) == s,
    decreases s,
{
    if s.len() == 0 {
        assert(spec_normalize(s) =~= s);
    } else {
        lemma_normalize_identity_on_normalized(s.drop_first());
        match s.first() {
            NodeModel::Element(e) => {
                lemma_normalize_identity_on_normalized_node(s.first());
                assert(spec_normalize(s) =~= seq![s.first()] + s.drop_first());
                assert(seq![s.first()] + s.drop_first() =~= s);
            },
            NodeModel::Text(t) => {
                if s.len() > 1 {
                    assert(!(s[1] is Text));
                    assert(s.drop_first().first() == s[1]);
                }
                assert(spec_normalize(s) =~= seq![s.first()] + s.drop_first());
                assert(seq![s.first()] + s.drop_first() =~= s);
            },
            NodeModel::Comment(c) => {
                assert(spec_normalize(s) =~= seq![s.first()] + s.drop_first());
                assert(seq![s.first()] + s.drop_first() =~= s);
            },
        }
    }
}

/// Normalizing an already normalized node changes nothing.
proof fn lemma_normalize_identity_on_normalized_node(n: NodeModel)
    requires
        spec_normalized_node(n),
    ensures
        match n {
            NodeModel::Element(e) => spec_normalize(e.children) == e.children,
            _ => true,
        },
    decreases n,
{
    match n {
        NodeModel::Element(e) => {
            lemma_normalize_identity_on_normalized(e.children);
        },
        _ => {},
    }
}

/// Idempotence: for a name-scoped policy, sanitizing an already sanitized
/// forest changes nothing more, under either directive.
pub proof fn lemma_sanitize_idempotent<P: SanitizePolicy>(
    p: &P,
    d: Directive,
    nodes: Seq<NodeModel>,
)
    requires
        name_scoped_policy(p),
    ensures
        spec_sanitized_children(p, d, spec_sanitized_children(p, d, nodes))
            == spec_sanitized_children(p, d, nodes),
{
    if d is Permissive && p.spec_is_empty() {
    } else {
        let k = spec_sanitize_nodes(p, d, nodes);
        let s1 = spec_normalize(k);
        lemma_sanitize_makes_clean_nodes(p, d, nodes);
        lemma_normalize_preserves_clean(p, d, k);
        lemma_sanitize_identity_on_clean_nodes(p, d, s1);
        lemma_normalize_normalizes(k);
        lemma_normalize_identity_on_normalized(s1);
    }
}

/// The name-list [`crate::Policy`] is name-scoped: every one of its
/// decisions reads only the element's local name and the attribute's name.
pub proof fn lemma_policy_name_scoped<T: crate::traits::SanitizeDirective>(
    policy: &crate::policy::Policy<T>,
)
    ensures
        name_scoped_policy(policy),
{
}

/// Idempotence of the name-list policy: one full sanitize call is a fixed
/// point of the next, under either directive.
pub proof fn lemma_policy_sanitize_idempotent<T: crate::traits::SanitizeDirective>(
    policy: &crate::policy::Policy<T>,
    d: Directive,
    nodes: Seq<NodeModel>,
)
    ensures
        spec_sanitized_children(policy, d, spec_sanitized_children(policy, d, nodes))
            == spec_sanitized_children(policy, d, nodes),
{
    lemma_policy_name_scoped(policy);
    lemma_sanitize_idempotent(policy, d, nodes);
}

/// A plugin policy whose node checkers match by local name and whose
/// attribute checkers are the name-scoped preset matcher is itself
/// name-scoped, so [`lemma_sanitize_idempotent`] applies to it. A checker
/// that reads an element's attributes or text content is not covered: for
/// such a policy a second pass can differ from the first.
pub proof fn lemma_name_matcher_plugin_policy_scoped<T: crate::traits::SanitizeDirective>(
    policy: &crate::plugin_policy::PluginPolicy<
        T,
        crate::plugin_policy::preset::LocalNamesMatcher,
        crate::plugin_policy::preset::LocalNamesMatcher,
        crate::plugin_policy::preset::AttrMatcher,
    >,
)
    ensures
        name_scoped_policy(policy),
{
    assert forall|e1: ElementModel, e2: ElementModel|
        #![trigger policy.spec_exclude(NodeModel::Element(e1)), policy.spec_exclude(
            NodeModel::Element(e2),
        )]
        e1.name == e2.name && e1.ns == e2.ns implies policy.spec_exclude(NodeModel::Element(e1))
        == policy.spec_exclude(NodeModel::Element(e2)) by {
        let cs = policy.spec_excluders();
        assert forall|i: int| 0 <= i < cs.len() implies (#[trigger] cs[i]).spec_is_match(
            NodeModel::Element(e1),
        ) == cs[i].spec_is_match(NodeModel::Element(e2)) by {}
        if policy.spec_exclude(NodeModel::Element(e1)) {
            let i = choose|i: int|
                0 <= i < cs.len() && (#[trigger] cs[i]).spec_is_match(NodeModel::Element(e1));
            assert(cs[i].spec_is_match(NodeModel::Element(e2)));
        }
        if policy.spec_exclude(NodeModel::Element(e2)) {
            let i = choose|i: int|
                0 <= i < cs.len() && (#[trigger] cs[i]).spec_is_match(NodeModel::Element(e2));
            assert(cs[i].spec_is_match(NodeModel::Element(e1)));
        }
    }
    assert forall|e1: ElementModel, e2: ElementModel|
        #![trigger policy.spec_remove(NodeModel::Element(e1)), policy.spec_remove(
            NodeModel::Element(e2),
        )]
        e1.name == e2.name && e1.ns == e2.ns implies policy.spec_remove(NodeModel::Element(e1))
        == policy.spec_remove(NodeModel::Element(e2)) by {
        let cs = policy.spec_removers();
        assert forall|i: int| 0 <= i < cs.len() implies (#[trigger] cs[i]).spec_is_match(
            NodeModel::Element(e1),
        ) == cs[i].spec_is_match(NodeModel::Element(e2)) by {}
        if policy.spec_remove(NodeModel::Element(e1)) {
            let i = choose|i: int|
                0 <= i < cs.len() && (#[trigger] cs[i]).spec_is_match(NodeModel::Element(e1));
            assert(cs[i].spec_is_match(NodeModel::Element(e2)));
        }
        if policy.spec_remove(NodeModel::Element(e2)) {
            let i = choose|i: int|
                0 <= i < cs.len() && (#[trigger] cs[i]).spec_is_match(NodeModel::Element(e2));
            assert(cs[i].spec_is_match(NodeModel::Element(e1)));
        }
    }
    assert forall|e1: ElementModel, e2: ElementModel, a: AttrModel|
        #![trigger policy.spec_exclude_attr(NodeModel::Element(e1), a), policy.spec_exclude_attr(
            NodeModel::Element(e2),
            a,
        )]
        e1.name == e2.name && e1.ns == e2.ns implies policy.spec_exclude_attr(
        NodeModel::Element(e1),
        a,
    ) == policy.spec_exclude_attr(NodeModel::Element(e2), a) by {
        let cs = policy.spec_attr_checkers();
        assert forall|i: int| 0 <= i < cs.len() implies (#[trigger] cs[i]).spec_is_match_attr(
            NodeModel::Element(e1),
            a,
        ) == cs[i].spec_is_match_attr(NodeModel::Element(e2), a) by {}
        if policy.spec_exclude_attr(NodeModel::Element(e1), a) {
            let i = choose|i: int|
                0 <= i < cs.len() && (#[trigger] cs[i]).spec_is_match_attr(
                    NodeModel::Element(e1),
                    a,
                );
            assert(cs[i].spec_is_match_attr(NodeModel::Element(e2), a));
        }
        if policy.spec_exclude_attr(NodeModel::Element(e2), a) {
            let i = choose|i: int|
                0 <= i < cs.len() && (#[trigger] cs[i]).spec_is_match_attr(
                    NodeModel::Element(e2),
                    a,
                );
            assert(cs[i].spec_is_match_attr(NodeModel::Element(e1), a));
        }
    }
}

} // verus!
