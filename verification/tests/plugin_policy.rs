use dom_sanitizer::attr_parser::{AttrOperator, AttrValue};
use dom_sanitizer::plugin_policy::preset::{
    AnyAttrChecker, AnyNodeChecker, AttrMatcher, AttrNamePrefixMatcher, AttrValueMatcher,
    LocalNameMatcher, LocalNamesMatcher, NamespaceMatcher, NonEmptyTextMatcher,
    NsAttrMatcher, NsSafeAttrMatcher, PhraseCountMatcher,
};
use dom_sanitizer::plugin_policy::{PermissivePluginPolicy, PluginPolicy, RestrictivePluginPolicy};
use dom_sanitizer::{Attr, Document, Element, Node, Permissive, Restrictive};

const SVG_NS: &str = "http://www.w3.org/2000/svg";

fn el(name: &str, attrs: &[(&str, &str)], children: Vec<Node>) -> Node {
    el_ns(name, "", attrs, children)
}

fn el_ns(name: &str, ns: &str, attrs: &[(&str, &str)], children: Vec<Node>) -> Node {
    Node::Element(Element {
        name: name.to_string(),
        ns: ns.to_string(),
        attrs: attrs
            .iter()
            .map(|(k, v)| Attr { name: k.to_string(), value: v.to_string() })
            .collect(),
        children,
    })
}

fn txt(s: &str) -> Node {
    Node::Text(s.to_string())
}

fn collect<'a>(n: &'a Node, out: &mut Vec<&'a Element>) {
    if let Node::Element(e) = n {
        out.push(e);
        for c in &e.children {
            collect(c, out);
        }
    }
}

fn doc_elements(d: &Document) -> Vec<&Element> {
    let mut out = Vec::new();
    for c in &d.children {
        collect(c, &mut out);
    }
    out
}

fn count_named(d: &Document, name: &str) -> usize {
    doc_elements(d).iter().filter(|e| e.name == name).count()
}

fn exists_named(d: &Document, name: &str) -> bool {
    count_named(d, name) > 0
}

fn has_attr(e: &Element, k: &str) -> bool {
    e.attrs.iter().any(|a| a.name == k)
}

fn count_with_attr(d: &Document, attr: &str) -> usize {
    doc_elements(d).iter().filter(|e| has_attr(e, attr)).count()
}

fn count_child_pairs(d: &Document, parent: &str, child: &str, child_attrs: &[&str]) -> usize {
    doc_elements(d)
        .iter()
        .filter(|e| e.name == parent)
        .map(|e| {
            e.children
                .iter()
                .filter(|c| match c {
                    Node::Element(ce) => {
                        ce.name == child && child_attrs.iter().all(|a| has_attr(ce, a))
                    }
                    _ => false,
                })
                .count()
        })
        .sum()
}

fn exists_descendant(d: &Document, outer: &str, inner: &str) -> bool {
    doc_elements(d).iter().any(|e| {
        if e.name != outer {
            return false;
        }
        let mut inside = Vec::new();
        for c in &e.children {
            collect(c, &mut inside);
        }
        inside.iter().any(|i| i.name == inner)
    })
}

fn doc_text(d: &Document) -> String {
    let mut s = String::new();
    for c in &d.children {
        s.push_str(c.text().as_str());
    }
    s
}

fn total_nodes(d: &Document) -> usize {
    fn size(n: &Node) -> usize {
        match n {
            Node::Element(e) => 1 + e.children.iter().map(size).sum::<usize>(),
            _ => 1,
        }
    }
    d.children.iter().map(size).sum()
}

fn paragraph(ord: &str, href: &str) -> Node {
    el(
        "div",
        &[],
        vec![el(
            "p",
            &[("role", "paragraph")],
            vec![
                txt(&format!("The {ord} paragraph contains ")),
                el(
                    "a",
                    &[("href", href), ("role", "link")],
                    vec![txt(&format!("the {ord} link"))],
                ),
                txt("."),
            ],
        )],
    )
}

fn paragraph_doc() -> Document {
    let body = el(
        "body",
        &[],
        vec![
            txt("\n        "),
            paragraph("first", "/first"),
            txt("\n        "),
            paragraph("second", "/second"),
            txt("\n        "),
            paragraph("third", "/third"),
            txt("\n        "),
            el(
                "div",
                &[],
                vec![el(
                    "p",
                    &[("id", "highlight"), ("role", "paragraph")],
                    vec![
                        el("mark", &[], vec![txt("highlighted text")]),
                        txt(", "),
                        el("b", &[], vec![txt("bold text")]),
                    ],
                )],
            ),
            txt("\n        "),
            el("div", &[], vec![]),
            txt("\n    "),
        ],
    );
    let head = el("head", &[], vec![el("title", &[], vec![txt("Test")])]);
    Document { children: vec![el("html", &[], vec![head, body])] }
}

fn table_doc() -> Document {
    let head = el(
        "head",
        &[],
        vec![
            el("title", &[], vec![txt("Nutrition")]),
            el("style", &[], vec![txt("table { border-collapse: collapse; }")]),
        ],
    );
    let table = el(
        "table",
        &[("data-nutrition", "facts")],
        vec![
            el(
                "tr",
                &[],
                vec![
                    el("th", &[("scope", "col")], vec![txt("Name")]),
                    el("th", &[("scope", "col")], vec![txt("Energy")]),
                ],
            ),
            el(
                "tr",
                &[("class", "nutrition-item")],
                vec![
                    el("td", &[], vec![txt("Apple")]),
                    el("td", &[], vec![el("small", &[], vec![txt("52 kcal")])]),
                ],
            ),
        ],
    );
    let body = el("body", &[], vec![el("h1", &[], vec![txt("Nutrition table")]), table]);
    Document { children: vec![el("html", &[("lang", "en")], vec![head, body])] }
}

fn svg_doc() -> Document {
    let svg = el_ns(
        "svg",
        SVG_NS,
        &[
            ("oncontentvisibilityautostatechange", "alert(1)"),
            ("style", "display:block;content-visibility:auto"),
            ("viewBox", "0 0 100 100"),
            ("preserveAspectRatio", "xMidYMid slice"),
            ("role", "img"),
        ],
        vec![
            el_ns("title", SVG_NS, &[], vec![txt("A gradient")]),
            el_ns(
                "linearGradient",
                SVG_NS,
                &[("id", "gradient")],
                vec![
                    el_ns(
                        "stop",
                        SVG_NS,
                        &[("class", "begin"), ("offset", "0%"), ("stop-color", "red")],
                        vec![],
                    ),
                    el_ns(
                        "stop",
                        SVG_NS,
                        &[("class", "end"), ("offset", "100%"), ("stop-color", "black")],
                        vec![],
                    ),
                ],
            ),
            el_ns(
                "rect",
                SVG_NS,
                &[
                    ("x", "0"),
                    ("y", "0"),
                    ("width", "100"),
                    ("height", "100"),
                    ("style", "fill:url(#gradient)"),
                ],
                vec![],
            ),
            el_ns(
                "circle",
                SVG_NS,
                &[("cx", "50"), ("cy", "50"), ("r", "30"), ("style", "fill:url(#gradient)")],
                vec![],
            ),
        ],
    );
    let body = el(
        "body",
        &[],
        vec![
            svg,
            el("p", &[], vec![txt("Some text")]),
            el("div", &[("class", "text")], vec![txt("Some other text")]),
        ],
    );
    let head = el("head", &[], vec![el("title", &[], vec![txt("Test")])]);
    Document { children: vec![el("html", &[], vec![head, body])] }
}

fn exclude_only_https() -> AnyNodeChecker {
    AnyNodeChecker::AttrValue(AttrValueMatcher::new(
        "a",
        "href",
        AttrValue { op: AttrOperator::Prefix, value: "https://".to_string() },
        false,
    ))
}

fn exclude_no_https() -> AnyNodeChecker {
    AnyNodeChecker::AttrValue(AttrValueMatcher::new(
        "a",
        "href",
        AttrValue { op: AttrOperator::Prefix, value: "https://".to_string() },
        true,
    ))
}

#[test]
fn test_restrictive_plugin_policy() {
    let mut doc = paragraph_doc();
    // The policy is restrictive: it unwraps everything not explicitly
    // allowed (excluded from the policy).
    let policy: PluginPolicy<Restrictive> = PluginPolicy::builder()
        .exclude(exclude_only_https())
        .exclude(AnyNodeChecker::NonEmptyText(NonEmptyTextMatcher::new("div")))
        .exclude(AnyNodeChecker::LocalName(LocalNameMatcher::new("p")))
        .exclude(AnyNodeChecker::LocalName(LocalNameMatcher::new("title")))
        .exclude(AnyNodeChecker::LocalNames(LocalNamesMatcher::new(&["mark", "b"])))
        .build();

    policy.sanitize_node(&mut doc.children[0]);
    // Divs are not empty, so they are allowed
    assert_eq!(count_named(&doc, "div"), 4);

    // All links are stripped, because it's not clear if they are secure.
    assert_eq!(count_named(&doc, "a"), 0);
    assert_eq!(doc_text(&doc).matches("link").count(), 3);

    // html, head, body are always kept
    assert!(exists_named(&doc, "html"));
    assert!(exists_named(&doc, "head"));
    assert!(exists_named(&doc, "body"));
    // title is preserved, because it's excluded from the restrictive policy
    assert!(exists_descendant(&doc, "head", "title"));
    assert!(exists_descendant(&doc, "p", "mark"));
    assert!(exists_descendant(&doc, "p", "b"));
    assert_eq!(
        doc_elements(&doc).iter().filter(|e| e.name == "p" && has_attr(e, "role")).count(),
        0
    );
}

#[test]
fn plugin_policy_test_restrictive_policy_attrs() {
    let policy: PluginPolicy<Restrictive> = PluginPolicy::builder()
        .exclude(AnyNodeChecker::LocalNames(LocalNamesMatcher::new(&["p", "a"])))
        .exclude_attr(AnyAttrChecker::AttrNames(AttrMatcher::new(None, &["role"])))
        .exclude_attr(AnyAttrChecker::AttrNames(AttrMatcher::new(Some("a"), &["href"])))
        .build();
    let mut doc = paragraph_doc();
    policy.sanitize_document(&mut doc);
    assert!(!exists_named(&doc, "div"));
    assert_eq!(count_child_pairs(&doc, "p", "a", &["href"]), 3);
    assert_eq!(count_with_attr(&doc, "role"), 7);
}

#[test]
fn test_restrictive_plugin_policy_remove() {
    let mut doc = paragraph_doc();
    let policy: RestrictivePluginPolicy =
        PluginPolicy::builder().remove(exclude_no_https()).build();

    policy.sanitize_node(&mut doc.children[0]);
    assert_eq!(count_named(&doc, "div"), 0);

    // All links are stripped, because it's not clear if they are secure.
    assert_eq!(count_named(&doc, "a"), 0);
    assert_eq!(doc_text(&doc).matches("link").count(), 0);

    // html, head, body are always kept
    assert!(exists_named(&doc, "html"));
    assert!(exists_named(&doc, "head"));
    assert!(exists_named(&doc, "body"));
}

#[test]
fn test_permissive_plugin_policy_remove() {
    let mut doc = table_doc();
    let policy: PluginPolicy<Permissive> = PluginPolicy::builder()
        .exclude(AnyNodeChecker::LocalNames(LocalNamesMatcher::new(&["style"])))
        .build();

    assert!(exists_named(&doc, "style"));

    policy.sanitize_document(&mut doc);

    assert!(!exists_named(&doc, "style"));

    // After sanitization the style's inner contents survive as a text node.
    assert!(doc_text(&doc).contains("border-collapse: collapse"));

    // For such cases it's better to use a remove checker.
    let policy: PluginPolicy<Permissive> = PluginPolicy::builder()
        .remove(AnyNodeChecker::LocalNames(LocalNamesMatcher::new(&["style"])))
        .build();
    let mut doc = table_doc();
    policy.sanitize_document(&mut doc);
    // style elements are removed from the tree, including their text content.
    assert!(!exists_named(&doc, "style"));
    assert!(!doc_text(&doc).contains("border-collapse: collapse"));
}

#[test]
fn test_permissive_plugin_policy_unspecified() {
    let mut doc = table_doc();
    let policy: PermissivePluginPolicy = PluginPolicy::builder().build();

    let total_nodes_before = total_nodes(&doc);
    policy.sanitize_document(&mut doc);
    let total_nodes_after = total_nodes(&doc);
    assert_eq!(total_nodes_before, total_nodes_after);
}

fn keyframes_doc() -> Document {
    let body = el(
        "body",
        &[],
        vec![
            el("style", &[], vec![txt("@keyframes x{}")]),
            el(
                "a",
                &[("style", "animation-name:x"), ("onanimationend", "alert(1)")],
                vec![],
            ),
            el("p", &[], vec![txt("Test content")]),
        ],
    );
    let head = el("head", &[], vec![el("title", &[], vec![txt("Test")])]);
    Document { children: vec![el("html", &[], vec![head, body])] }
}

#[test]
fn test_permissive_plugin_policy_exclude_attr() {
    let mut doc = keyframes_doc();
    let policy: PluginPolicy<Permissive> = PluginPolicy::builder()
        .exclude_attr(AnyAttrChecker::NamePrefix(AttrNamePrefixMatcher::new(
            "on",
            &["onclick"],
        )))
        .remove(AnyNodeChecker::LocalNames(LocalNamesMatcher::new(&["style"])))
        .build();

    assert!(exists_named(&doc, "style"));
    assert_eq!(
        doc_elements(&doc)
            .iter()
            .filter(|e| e.name == "a" && has_attr(e, "onanimationend"))
            .count(),
        1
    );
    policy.sanitize_document(&mut doc);
    assert!(!exists_named(&doc, "style"));
    assert_eq!(
        doc_elements(&doc)
            .iter()
            .filter(|e| e.name == "a" && has_attr(e, "onanimationend"))
            .count(),
        0
    );
    assert!(exists_named(&doc, "a"));

    // the event-handler value is gone from the whole tree
    assert!(doc_elements(&doc)
        .iter()
        .all(|e| e.attrs.iter().all(|a| a.value != "alert(1)")));
}

#[test]
fn test_permissive_plugin_policy_remove_by_regex() {
    let ad_div = el(
        "div",
        &[("class", "ad-block")],
        vec![
            el("h3", &[("class", "ad-title")], vec![txt("Limited Time Offer!")]),
            el(
                "p",
                &[("class", "ad-text")],
                vec![txt("Discover amazing deals on our latest products. Shop now and save big!")],
            ),
            el("a", &[("href", "/deal"), ("target", "_blank")], vec![txt("Learn More")]),
        ],
    );
    let body = el(
        "body",
        &[],
        vec![
            ad_div,
            el("div", &[], vec![el("p", &[("class", "regular-text")], vec![txt("A test paragraph.")])]),
            el("div", &[], vec![el("p", &[], vec![txt("Another test paragraph.")])]),
        ],
    );
    let head = el("head", &[], vec![el("title", &[], vec![txt("Test Ad Block")])]);
    let mut doc = Document { children: vec![el("html", &[("lang", "en")], vec![head, body])] };

    let policy: PluginPolicy<Permissive> = PluginPolicy::builder()
        .remove(AnyNodeChecker::PhraseCount(PhraseCountMatcher::new(
            &["shop now", "amazing deals", "offer"],
            3,
            "div",
        )))
        .build();
    let is_ad_block = |e: &&Element| {
        e.name == "div" && e.attrs.iter().any(|a| a.name == "class" && a.value == "ad-block")
    };
    assert!(doc_elements(&doc).iter().any(is_ad_block));
    assert_eq!(count_named(&doc, "div"), 3);
    assert_eq!(count_named(&doc, "p"), 3);

    policy.sanitize_document(&mut doc);
    assert!(!doc_elements(&doc).iter().any(is_ad_block));
    assert_eq!(count_named(&doc, "div"), 2);
    assert_eq!(count_named(&doc, "p"), 2);
}

#[test]
fn test_permissive_plugin_policy_svg() {
    let policy: PermissivePluginPolicy = PluginPolicy::builder()
        .exclude(AnyNodeChecker::Namespace(NamespaceMatcher::new(SVG_NS)))
        .exclude(AnyNodeChecker::LocalName(LocalNameMatcher::new("div")))
        .build();

    let mut doc = svg_doc();

    assert!(exists_named(&doc, "svg"));
    assert!(exists_named(&doc, "rect"));
    assert!(exists_named(&doc, "div"));

    policy.sanitize_document(&mut doc);

    // The policy removes the svg element and its contents
    assert!(!exists_named(&doc, "svg"));
    assert!(!exists_named(&doc, "rect"));
    assert!(!exists_named(&doc, "div"));
}

#[test]
fn test_permissive_policy_svg_class() {
    let policy: PermissivePluginPolicy = PluginPolicy::builder()
        .exclude_attr(AnyAttrChecker::NsAttrNames(NsAttrMatcher::new(
            SVG_NS,
            &["class", "style"],
        )))
        .build();

    let mut doc = svg_doc();
    let svg_descendant_with = |d: &Document, attr: &str| {
        doc_elements(d).iter().any(|e| {
            if e.name != "svg" {
                return false;
            }
            let mut inside = Vec::new();
            for c in &e.children {
                collect(c, &mut inside);
            }
            inside.iter().any(|i| has_attr(i, attr))
        })
    };
    assert!(svg_descendant_with(&doc, "style"));
    assert!(svg_descendant_with(&doc, "class"));

    policy.sanitize_document(&mut doc);

    assert!(!svg_descendant_with(&doc, "style"));
    assert!(!svg_descendant_with(&doc, "class"));
    assert!(doc_elements(&doc)
        .iter()
        .any(|e| e.name == "div" && has_attr(e, "class")));
}

#[test]
fn test_restrictive_plugin_policy_svg() {
    let policy: RestrictivePluginPolicy = PluginPolicy::builder()
        .exclude(AnyNodeChecker::Namespace(NamespaceMatcher::new(SVG_NS)))
        .exclude(AnyNodeChecker::LocalName(LocalNameMatcher::new("div")))
        .exclude_attr(AnyAttrChecker::NsSafe(NsSafeAttrMatcher::new(SVG_NS, "on")))
        .build();

    let mut doc = svg_doc();

    let svg_has = |d: &Document, attrs: &[&str]| {
        doc_elements(d)
            .iter()
            .any(|e| e.name == "svg" && attrs.iter().all(|a| has_attr(e, a)))
    };
    let rect_has = |d: &Document, attrs: &[&str]| {
        doc_elements(d)
            .iter()
            .any(|e| e.name == "rect" && attrs.iter().all(|a| has_attr(e, a)))
    };
    assert!(svg_has(&doc, &["style", "oncontentvisibilityautostatechange"]));
    assert!(rect_has(&doc, &["width", "height", "style"]));
    assert!(exists_named(&doc, "div"));
    assert!(exists_named(&doc, "p"));

    policy.sanitize_document(&mut doc);

    assert!(!svg_has(&doc, &["oncontentvisibilityautostatechange"]));
    assert!(svg_has(&doc, &["style"]));
    assert!(rect_has(&doc, &["width", "height", "style"]));
    assert!(exists_named(&doc, "div"));
    assert!(!exists_named(&doc, "p"));
}

#[test]
fn test_restrictive_complex_policy() {
    let mut doc = paragraph_doc();
    let policy: PluginPolicy<Restrictive> = PluginPolicy::builder()
        .exclude(exclude_only_https())
        .exclude(AnyNodeChecker::NonEmptyText(NonEmptyTextMatcher::new("div")))
        .exclude(AnyNodeChecker::LocalName(LocalNameMatcher::new("p")))
        .exclude(AnyNodeChecker::LocalNames(LocalNamesMatcher::new(&["html", "head", "body"])))
        .exclude(AnyNodeChecker::LocalName(LocalNameMatcher::new("title")))
        .exclude(AnyNodeChecker::LocalNames(LocalNamesMatcher::new(&["mark", "b"])))
        .build();

    policy.sanitize_node(&mut doc.children[0]);
    // Divs are not empty, so they are allowed
    assert_eq!(count_named(&doc, "div"), 4);

    // All links are stripped, because it's not clear if they are secure.
    assert_eq!(count_named(&doc, "a"), 0);

    // html, head, body are always kept
    assert!(exists_named(&doc, "html"));
    assert!(exists_named(&doc, "head"));
    assert!(exists_named(&doc, "body"));
    // title is kept, because the policy allows it
    assert!(exists_descendant(&doc, "head", "title"));
    assert!(exists_descendant(&doc, "p", "mark"));
    assert!(exists_descendant(&doc, "p", "b"));
}
