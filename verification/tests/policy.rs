use dom_sanitizer::{
    AllowAllPolicy, Attr, DenyAllPolicy, Document, Element, Node, SanitizeExt,
};

fn el(name: &str, attrs: &[(&str, &str)], children: Vec<Node>) -> Node {
    Node::Element(Element {
        name: name.to_string(),
        ns: String::new(),
        attrs: attrs
            .iter()
            .map(|(k, v)| Attr { name: k.to_string(), value: v.to_string() })
            .collect(),
        children,
    })
}

fn txt(s: &str) -> Node {
    Node::Text(s.to_string())
}

fn collect<'a>(n: &'a Node, out: &mut Vec<&'a Element>) {
    if let Node::Element(e) = n {
        out.push(e);
        for c in &e.children {
            collect(c, out);
        }
    }
}

fn doc_elements(d: &Document) -> Vec<&Element> {
    let mut out = Vec::new();
    for c in &d.children {
        collect(c, &mut out);
    }
    out
}

fn count_named(d: &Document, name: &str) -> usize {
    doc_elements(d).iter().filter(|e| e.name == name).count()
}

fn exists_named(d: &Document, name: &str) -> bool {
    count_named(d, name) > 0
}

fn has_attr(e: &Element, k: &str) -> bool {
    e.attrs.iter().any(|a| a.name == k)
}

fn count_with_attr(d: &Document, attr: &str) -> usize {
    doc_elements(d).iter().filter(|e| has_attr(e, attr)).count()
}

fn count_child_pairs(d: &Document, parent: &str, child: &str, child_attrs: &[&str]) -> usize {
    doc_elements(d)
        .iter()
        .filter(|e| e.name == parent)
        .map(|e| {
            e.children
                .iter()
                .filter(|c| match c {
                    Node::Element(ce) => {
                        ce.name == child && child_attrs.iter().all(|a| has_attr(ce, a))
                    }
                    _ => false,
                })
                .count()
        })
        .sum()
}

fn doc_text(d: &Document) -> String {
    let mut s = String::new();
    for c in &d.children {
        s.push_str(c.text().as_str());
    }
    s
}

fn subtree_count(n: &Node) -> usize {
    match n {
        Node::Element(e) => 1 + e.children.iter().map(subtree_count).sum::<usize>(),
        _ => 1,
    }
}

fn paragraph(ord: &str, href: &str) -> Node {
    el(
        "div",
        &[],
        vec![el(
            "p",
            &[("role", "paragraph")],
            vec![
                txt(&format!("The {ord} paragraph contains ")),
                el(
                    "a",
                    &[("href", href), ("role", "link")],
                    vec![txt(&format!("the {ord} link"))],
                ),
                txt("."),
            ],
        )],
    )
}

fn paragraph_doc() -> Document {
    let body = el(
        "body",
        &[],
        vec![
            txt("\n        "),
            paragraph("first", "/first"),
            txt("\n        "),
            paragraph("second", "/second"),
            txt("\n        "),
            paragraph("third", "/third"),
            txt("\n        "),
            el(
                "div",
                &[],
                vec![el(
                    "p",
                    &[("id", "highlight"), ("role", "paragraph")],
                    vec![
                        el("mark", &[], vec![txt("highlighted text")]),
                        txt(", "),
                        el("b", &[], vec![txt("bold text")]),
                    ],
                )],
            ),
            txt("\n        "),
            el("div", &[], vec![]),
            txt("\n    "),
        ],
    );
    let head = el("head", &[], vec![el("title", &[], vec![txt("Test")])]);
    Document { children: vec![el("html", &[], vec![head, body])] }
}

fn table_doc() -> Document {
    let head = el(
        "head",
        &[],
        vec![
            el("title", &[], vec![txt("Nutrition")]),
            el(
                "style",
                &[],
                vec![txt("table { border-collapse: collapse; }")],
            ),
        ],
    );
    let table = el(
        "table",
        &[("data-nutrition", "facts")],
        vec![
            el(
                "tr",
                &[],
                vec![
                    el("th", &[("scope", "col")], vec![txt("Name")]),
                    el("th", &[("scope", "col")], vec![txt("Energy")]),
                ],
            ),
            el(
                "tr",
                &[("class", "nutrition-item")],
                vec![
                    el("td", &[], vec![txt("Apple")]),
                    el("td", &[], vec![el("small", &[], vec![txt("52 kcal")])]),
                ],
            ),
            el(
                "tr",
                &[("class", "nutrition-item")],
                vec![
                    el("td", &[], vec![txt("Bread")]),
                    el("td", &[], vec![el("b", &[], vec![txt("265 kcal")])]),
                ],
            ),
        ],
    );
    let body = el(
        "body",
        &[],
        vec![el("h1", &[], vec![txt("Nutrition table")]), table],
    );
    Document { children: vec![el("html", &[("lang", "en")], vec![head, body])] }
}

#[test]
fn test_restrictive_policy() {
    let policy = DenyAllPolicy::builder().exclude_elements(&["p", "a"]).build();
    let mut doc = paragraph_doc();
    policy.sanitize_document(&mut doc);
    assert!(!exists_named(&doc, "div"));
    assert_eq!(count_child_pairs(&doc, "p", "a", &[]), 3);

    assert!(exists_named(&doc, "html"));
    assert!(exists_named(&doc, "head"));
    assert!(exists_named(&doc, "body"));
}

#[test]
fn test_permissive_policy() {
    let policy = AllowAllPolicy::builder().exclude_elements(&["div"]).build();
    let mut doc = paragraph_doc();
    policy.sanitize_document(&mut doc);
    assert!(!exists_named(&doc, "div"));
    assert_eq!(count_child_pairs(&doc, "p", "a", &[]), 3);

    // html, head, body are always kept
    assert!(exists_named(&doc, "html"));
    assert!(exists_named(&doc, "head"));
    assert!(exists_named(&doc, "body"));
}

#[test]
fn test_restrictive_policy_attrs() {
    let policy = DenyAllPolicy::builder()
        .exclude_elements(&["p", "a"])
        .exclude_attrs(&["role"])
        .exclude_element_attrs("a", &["href"])
        .build();
    let mut doc = paragraph_doc();
    policy.sanitize_document(&mut doc);
    assert!(!exists_named(&doc, "div"));
    assert_eq!(count_child_pairs(&doc, "p", "a", &["href"]), 3);
    assert_eq!(count_with_attr(&doc, "role"), 7);
}

#[test]
fn test_permissive_policy_attrs() {
    let policy = AllowAllPolicy::builder()
        .exclude_elements(&["div"])
        .exclude_element_attrs("p", &["role"])
        .build();
    let mut doc = paragraph_doc();
    policy.sanitize_document(&mut doc);
    assert!(!exists_named(&doc, "div"));
    assert_eq!(count_named(&doc, "p"), 4);
    assert_eq!(
        doc_elements(&doc)
            .iter()
            .filter(|e| e.name == "p" && has_attr(e, "role"))
            .count(),
        0
    );
    assert_eq!(count_child_pairs(&doc, "p", "a", &["href", "role"]), 3);
}

#[test]
fn test_restrictive_policy_simple() {
    let policy = DenyAllPolicy::builder().build();
    let mut doc = paragraph_doc();
    let root = &mut doc.children[0];
    root.sanitize(&policy);
    assert!(!exists_named(&doc, "div"));
    assert!(!exists_named(&doc, "p"));
    assert!(!exists_named(&doc, "a"));

    assert!(exists_named(&doc, "html"));
    assert!(exists_named(&doc, "head"));

    assert_eq!(count_named(&doc, "body"), 1);
    let body = doc_elements(&doc)
        .into_iter()
        .find(|e| e.name == "body")
        .unwrap();

    // only one combined (normalized) text node is left
    assert_eq!(
        body.children.iter().map(subtree_count).sum::<usize>(),
        1
    );
    assert!(matches!(&body.children[0], Node::Text(_)));
}

#[test]
fn test_permissive_policy_simple() {
    let policy = AllowAllPolicy::builder().build();
    let mut doc = paragraph_doc();
    doc.sanitize(&policy);

    assert!(exists_named(&doc, "html"));
    assert!(exists_named(&doc, "head"));
    assert!(exists_named(&doc, "body"));
    assert!(exists_named(&doc, "div"));
    assert!(exists_named(&doc, "p"));
    assert!(exists_named(&doc, "a"));
}

#[test]
fn test_permissive_policy_remove() {
    // Excluding an element only unwraps it: its text content stays behind as
    // a stray text node. Removing it deletes the whole subtree.
    let policy = AllowAllPolicy::builder().exclude_elements(&["style"]).build();
    let mut doc = table_doc();
    policy.sanitize_document(&mut doc);

    assert!(!exists_named(&doc, "style"));

    // After sanitization the style's inner contents survive as a text node.
    assert!(doc_text(&doc).contains("border-collapse: collapse"));

    // For such cases it's better to use the `remove_elements()` method.
    let policy = AllowAllPolicy::builder().remove_elements(&["style"]).build();
    let mut doc = table_doc();
    policy.sanitize_document(&mut doc);
    // style elements are removed from the tree, including their text content.
    assert!(!exists_named(&doc, "style"));
    assert!(!doc_text(&doc).contains("border-collapse: collapse"));
}

#[test]
fn test_restrictive_policy_remove() {
    // Removing elements under the restrictive directive works the same way.
    let policy = DenyAllPolicy::builder().remove_elements(&["style"]).build();
    let mut doc = table_doc();

    policy.sanitize_document(&mut doc);
    assert!(!exists_named(&doc, "style"));
    assert!(!doc_text(&doc).contains("border-collapse: collapse"));
}

#[test]
fn test_restrictive_selection() {
    let policy = DenyAllPolicy::builder().build();
    let doc = paragraph_doc();
    let mut sel: Vec<Node> = doc_elements(&doc)
        .into_iter()
        .filter(|e| e.name == "p")
        .map(|e| el(
            "p",
            &e.attrs.iter().map(|a| (a.name.as_str(), a.value.as_str())).collect::<Vec<_>>(),
            e.children.iter().map(clone_node).collect(),
        ))
        .collect();
    assert_eq!(sel.len(), 4);
    let only_text = |n: &Node| match n {
        Node::Element(e) => e.children.len() == 1 && matches!(&e.children[0], Node::Text(_)),
        _ => false,
    };
    assert_eq!(sel.iter().filter(|n| only_text(n)).count(), 0);

    policy.sanitize_selection(&mut sel);

    assert_eq!(sel.iter().filter(|n| only_text(n)).count(), 4);
}

fn clone_node(n: &Node) -> Node {
    match n {
        Node::Element(e) => Node::Element(Element {
            name: e.name.clone(),
            ns: e.ns.clone(),
            attrs: e.attrs.iter().map(|a| Attr { name: a.name.clone(), value: a.value.clone() }).collect(),
            children: e.children.iter().map(clone_node).collect(),
        }),
        Node::Text(t) => Node::Text(t.clone()),
        Node::Comment(c) => Node::Comment(c.clone()),
    }
}
