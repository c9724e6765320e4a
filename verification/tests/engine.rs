use dom_sanitizer::plugin_policy::preset::{
    AnyNodeChecker, AttrValueMatcher, LocalNameMatcher, PhraseCountMatcher,
};
use dom_sanitizer::plugin_policy::{NodeChecker, PluginPolicy};
use dom_sanitizer::{
    AllowAllPolicy, Attr, DenyAllPolicy, Document, Element, Node, Permissive,
};

fn el(name: &str, attrs: &[(&str, &str)], children: Vec<Node>) -> Node {
    Node::Element(Element {
        name: name.to_string(),
        ns: String::new(),
        attrs: attrs
            .iter()
            .map(|(k, v)| Attr { name: k.to_string(), value: v.to_string() })
            .collect(),
        children,
    })
}

fn txt(s: &str) -> Node {
    Node::Text(s.to_string())
}

fn collect<'a>(n: &'a Node, out: &mut Vec<&'a Element>) {
    if let Node::Element(e) = n {
        out.push(e);
        for c in &e.children {
            collect(c, out);
        }
    }
}

fn doc_elements(d: &Document) -> Vec<&Element> {
    let mut out = Vec::new();
    for c in &d.children {
        collect(c, &mut out);
    }
    out
}

fn count_named(d: &Document, name: &str) -> usize {
    doc_elements(d).iter().filter(|e| e.name == name).count()
}

fn has_attr(e: &Element, k: &str) -> bool {
    e.attrs.iter().any(|a| a.name == k)
}

fn clone_node(n: &Node) -> Node {
    match n {
        Node::Element(e) => Node::Element(Element {
            name: e.name.clone(),
            ns: e.ns.clone(),
            attrs: e
                .attrs
                .iter()
                .map(|a| Attr { name: a.name.clone(), value: a.value.clone() })
                .collect(),
            children: e.children.iter().map(clone_node).collect(),
        }),
        Node::Text(t) => Node::Text(t.clone()),
        Node::Comment(c) => Node::Comment(c.clone()),
    }
}

fn clone_doc(d: &Document) -> Document {
    Document { children: d.children.iter().map(clone_node).collect() }
}

fn scenario_doc() -> Document {
    let item = |ord: &str, href: &str| {
        el(
            "div",
            &[],
            vec![el(
                "p",
                &[("role", "paragraph")],
                vec![
                    txt("A paragraph with "),
                    el("a", &[("href", href), ("role", "link")], vec![txt(ord)]),
                ],
            )],
        )
    };
    let body = el(
        "body",
        &[],
        vec![item("one", "/one"), item("two", "/two"), item("three", "/three")],
    );
    let head = el("head", &[], vec![el("title", &[], vec![txt("Links")])]);
    Document { children: vec![el("html", &[], vec![head, body])] }
}

#[test]
fn test_scenario_restrictive_attr_scopes() {
    // Restrictive, exclude {p, a}, keep `href` only under the `a` scope:
    // `role` disappears everywhere, `href` survives on every `a`.
    let policy = DenyAllPolicy::builder()
        .exclude_elements(&["p", "a"])
        .exclude_element_attrs("a", &["href"])
        .build();
    let mut doc = scenario_doc();
    policy.sanitize_document(&mut doc);

    assert_eq!(count_named(&doc, "div"), 0);
    let pairs: usize = doc_elements(&doc)
        .iter()
        .filter(|e| e.name == "p")
        .map(|e| {
            e.children
                .iter()
                .filter(|c| matches!(c, Node::Element(ce) if ce.name == "a"))
                .count()
        })
        .sum();
    assert_eq!(pairs, 3);
    assert_eq!(
        doc_elements(&doc)
            .iter()
            .filter(|e| e.name == "a" && has_attr(e, "href"))
            .count(),
        3
    );
    assert_eq!(
        doc_elements(&doc).iter().filter(|e| has_attr(e, "role")).count(),
        0
    );
}

#[test]
fn test_scenario_remove_style_block() {
    // Permissive with a remove checker matching `style`: the style block and
    // its text vanish; an exclude rule would leave the text behind.
    let style_doc = || {
        Document {
            children: vec![el(
                "html",
                &[],
                vec![
                    el("head", &[], vec![el("style", &[], vec![txt(".x { color: red }")])]),
                    el("body", &[], vec![el("p", &[], vec![txt("kept text")])]),
                ],
            )],
        }
    };

    let remove_policy: PluginPolicy<Permissive> = PluginPolicy::builder()
        .remove(AnyNodeChecker::LocalName(LocalNameMatcher::new("style")))
        .build();
    let mut doc = style_doc();
    remove_policy.sanitize_document(&mut doc);
    assert_eq!(count_named(&doc, "style"), 0);
    let text: String = doc.children.iter().map(|n| n.text()).collect();
    assert!(!text.contains("color: red"));
    assert!(text.contains("kept text"));

    let exclude_policy: PluginPolicy<Permissive> = PluginPolicy::builder()
        .exclude(AnyNodeChecker::LocalName(LocalNameMatcher::new("style")))
        .build();
    let mut doc = style_doc();
    exclude_policy.sanitize_document(&mut doc);
    assert_eq!(count_named(&doc, "style"), 0);
    let text: String = doc.children.iter().map(|n| n.text()).collect();
    assert!(text.contains("color: red"));
}

#[test]
fn test_scenario_phrase_count_threshold() {
    // A custom content checker removing any div whose text matches a phrase
    // set at least three times: three matches go, two stay.
    let noisy = el(
        "div",
        &[("class", "noisy")],
        vec![
            el("h3", &[], vec![txt("Limited Time Offer!")]),
            el("p", &[], vec![txt("Amazing deals everywhere. Shop now!")]),
        ],
    );
    let quiet = el(
        "div",
        &[("class", "quiet")],
        vec![
            el("h3", &[], vec![txt("Limited Time Offer!")]),
            el("p", &[], vec![txt("Nothing else to see here. Shop now!")]),
        ],
    );
    let mut doc = Document {
        children: vec![el("html", &[], vec![el("body", &[], vec![noisy, quiet])])],
    };
    let policy: PluginPolicy<Permissive> = PluginPolicy::builder()
        .remove(AnyNodeChecker::PhraseCount(PhraseCountMatcher::new(
            &["shop now", "amazing deals", "offer"],
            3,
            "div",
        )))
        .build();
    policy.sanitize_document(&mut doc);
    assert_eq!(count_named(&doc, "div"), 1);
    let kept = doc_elements(&doc).into_iter().find(|e| e.name == "div").unwrap();
    assert!(kept.attrs.iter().any(|a| a.value == "quiet"));
}

#[test]
fn test_sanitize_idempotent() {
    // Sanitizing an already sanitized document changes nothing, under either
    // directive.
    let restrictive = DenyAllPolicy::builder()
        .exclude_elements(&["p", "a"])
        .exclude_attrs(&["role"])
        .build();
    let mut once = scenario_doc();
    restrictive.sanitize_document(&mut once);
    let mut twice = clone_doc(&once);
    restrictive.sanitize_document(&mut twice);
    assert_eq!(once, twice);

    let permissive = AllowAllPolicy::builder()
        .exclude_elements(&["div"])
        .remove_elements(&["a"])
        .exclude_attrs(&["role"])
        .build();
    let mut once = scenario_doc();
    permissive.sanitize_document(&mut once);
    let mut twice = clone_doc(&once);
    permissive.sanitize_document(&mut twice);
    assert_eq!(once, twice);
}

#[test]
fn test_empty_permissive_is_no_op() {
    // An empty permissive policy must not touch the tree at all: even two
    // adjacent text nodes stay unmerged, and node count and order stand.
    let policy = AllowAllPolicy::builder().build();
    let mut doc = Document {
        children: vec![el(
            "html",
            &[],
            vec![el("body", &[], vec![txt("one"), txt("two"), el("p", &[], vec![])])],
        )],
    };
    let before = clone_doc(&doc);
    policy.sanitize_document(&mut doc);
    assert_eq!(doc, before);
}

#[test]
fn test_unwrap_ordering() {
    // Siblings [before, excluded(children=[c1, c2, c3]), after] become
    // [before, c1, c2, c3, after], in exactly that order.
    let excluded = el(
        "section",
        &[],
        vec![
            el("i", &[], vec![txt("c1")]),
            el("em", &[], vec![txt("c2")]),
            el("u", &[], vec![txt("c3")]),
        ],
    );
    let parent = el(
        "div",
        &[],
        vec![el("b", &[], vec![txt("before")]), excluded, el("s", &[], vec![txt("after")])],
    );
    let mut node = parent;
    let policy = AllowAllPolicy::builder().exclude_elements(&["section"]).build();
    policy.sanitize_node(&mut node);
    match &node {
        Node::Element(e) => {
            let names: Vec<&str> = e
                .children
                .iter()
                .map(|c| match c {
                    Node::Element(ce) => ce.name.as_str(),
                    _ => "#text",
                })
                .collect();
            assert_eq!(names, vec!["b", "i", "em", "u", "s"]);
        }
        _ => panic!("expected an element"),
    }
}

#[test]
fn test_remove_precedes_exclude() {
    // A node matching both a remove rule and an exclude rule is deleted
    // outright, children included: nothing is promoted.
    let policy = AllowAllPolicy::builder()
        .exclude_elements(&["aside"])
        .remove_elements(&["aside"])
        .build();
    let mut doc = Document {
        children: vec![el(
            "html",
            &[],
            vec![el(
                "body",
                &[],
                vec![el(
                    "aside",
                    &[],
                    vec![el("p", &[], vec![txt("inner")]), txt("stray")],
                )],
            )],
        )],
    };
    policy.sanitize_document(&mut doc);
    assert_eq!(count_named(&doc, "aside"), 0);
    assert_eq!(count_named(&doc, "p"), 0);
    let text: String = doc.children.iter().map(|n| n.text()).collect();
    assert!(!text.contains("inner"));
    assert!(!text.contains("stray"));
}

#[test]
fn test_restrictive_root_protection() {
    // Under the restrictive directive the html/head/body elements survive
    // whatever the rules say — even rules that name them for removal.
    let policy = DenyAllPolicy::builder()
        .remove_elements(&["html", "head", "body"])
        .build();
    let mut doc = scenario_doc();
    policy.sanitize_document(&mut doc);
    assert_eq!(count_named(&doc, "html"), 1);
    assert_eq!(count_named(&doc, "head"), 1);
    assert_eq!(count_named(&doc, "body"), 1);
}

#[test]
fn test_empty_document() {
    let mut doc = Document { children: vec![] };
    DenyAllPolicy::builder().build().sanitize_document(&mut doc);
    assert!(doc.children.is_empty());

    let mut doc = Document { children: vec![] };
    AllowAllPolicy::builder().exclude_elements(&["div"]).build().sanitize_document(&mut doc);
    assert!(doc.children.is_empty());
}

#[test]
fn test_comments_pass_through() {
    // Comments are never excluded or unwrapped, and block text merging.
    let policy = AllowAllPolicy::builder().exclude_elements(&["span"]).build();
    let mut doc = Document {
        children: vec![el(
            "body",
            &[],
            vec![
                txt("a"),
                el("span", &[], vec![txt("b")]),
                Node::Comment("note".to_string()),
                txt("c"),
            ],
        )],
    };
    policy.sanitize_document(&mut doc);
    match &doc.children[0] {
        Node::Element(e) => {
            assert_eq!(e.children.len(), 3);
            assert_eq!(e.children[0], Node::Text("ab".to_string()));
            assert_eq!(e.children[1], Node::Comment("note".to_string()));
            assert_eq!(e.children[2], Node::Text("c".to_string()));
        }
        _ => panic!("expected an element"),
    }
}

#[test]
fn test_merge_builds_combined_policy() {
    // merge() concatenates rule lists; duplicate rules are harmless.
    let base = AllowAllPolicy::builder().exclude_elements(&["div"]).build();
    let policy = AllowAllPolicy::builder()
        .exclude_elements(&["div", "span"])
        .merge(base)
        .build();
    let mut doc = Document {
        children: vec![el(
            "body",
            &[],
            vec![el("div", &[], vec![el("span", &[], vec![txt("x")])])],
        )],
    };
    policy.sanitize_document(&mut doc);
    assert_eq!(count_named(&doc, "div"), 0);
    assert_eq!(count_named(&doc, "span"), 0);
    let text: String = doc.children.iter().map(|n| n.text()).collect();
    assert_eq!(text, "x");
}

#[test]
fn test_attr_value_matcher_from_condition() {
    let m = AttrValueMatcher::from_condition("a", r#"[href^="https://"]"#, false).unwrap();
    let secure = el("a", &[("href", "https://x")], vec![]);
    let insecure = el("a", &[("href", "/local")], vec![]);
    let bare = el("a", &[], vec![]);
    assert!(m.is_match(&secure));
    assert!(!m.is_match(&insecure));
    assert!(!m.is_match(&bare));

    let flipped = AttrValueMatcher::from_condition("a", r#"[href^="https://"]"#, true).unwrap();
    assert!(!flipped.is_match(&secure));
    assert!(flipped.is_match(&insecure));
    assert!(!flipped.is_match(&bare));

    // a malformed condition, and one without a value, fail at construction
    assert!(AttrValueMatcher::from_condition("a", r#"[href^="https://"#, false).is_err());
    assert!(AttrValueMatcher::from_condition("a", "[href]", false).is_err());
}

#[test]
fn test_node_attr_lookup() {
    let n = el("a", &[("href", "/x"), ("href", "/y"), ("role", "link")], vec![txt("x")]);
    // the first attribute of a name wins
    assert_eq!(n.attr("href"), Some("/x".to_string()));
    assert_eq!(n.attr("role"), Some("link".to_string()));
    assert_eq!(n.attr("id"), None);
    assert_eq!(txt("x").attr("href"), None);

    let a = Attr::new("class", "wide");
    assert_eq!(a.name, "class".to_string());
    assert_eq!(a.value, "wide".to_string());
}
