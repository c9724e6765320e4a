//! Predefined policies for common element and attribute groups, ready to be
//! merged into a policy under either directive.

use vstd::prelude::*;

use crate::policy::base::AttributeRuleModel;
use crate::policy::Policy;
use crate::traits::SanitizeDirective;

verus! {

/// The names of the table elements that [`table_policy`] excludes.
pub open spec fn table_element_names() -> Seq<Seq<char>> {
    seq!["table"@, "caption"@, "colgroup"@, "col"@, "th"@, "tbody"@, "tr"@, "td"@, "tfoot"@]
}

/// Excludes the table elements — `table`, `caption`, `colgroup`, `col`,
/// `th`, `tbody`, `tr`, `td` and `tfoot` — from the directive's default
/// treatment.
pub fn table_policy<T: SanitizeDirective>() -> (r: Policy<T>)
    ensures
        r.spec_excluded() == table_element_names(),
        r.spec_removed() == Seq::<Seq<char>>::empty(),
        r.spec_attr_rules() == Seq::<AttributeRuleModel>::empty(),
{
    let elements = ["table", "caption", "colgroup", "col", "th", "tbody", "tr", "td", "tfoot"];
    let r = Policy::builder().exclude_elements(&elements).build();
    proof {
        assert(r.spec_excluded() =~= table_element_names());
    }
    r
}


/// The names of the text formatting elements that [`highlight_policy`]
/// excludes.
pub open spec fn highlight_element_names() -> Seq<Seq<char>> {
    seq!["b"@, "del"@, "em"@, "i"@, "ins"@, "mark"@, "s"@, "small"@, "strong"@, "u"@]
}

/// Excludes the text formatting elements — `b`, `del`, `em`, `i`, `ins`,
/// `mark`, `s`, `small`, `strong` and `u` — from the directive's default
/// treatment.
pub fn highlight_policy<T: SanitizeDirective>() -> (r: Policy<T>)
    ensures
        r.spec_excluded() == highlight_element_names(),
        r.spec_removed() == Seq::<Seq<char>>::empty(),
        r.spec_attr_rules() == Seq::<AttributeRuleModel>::empty(),
{
    let elements = ["b", "del", "em", "i", "ins", "mark", "s", "small", "strong", "u"];
    let r = Policy::builder().exclude_elements(&elements).build();
    proof {
        assert(r.spec_excluded() =~= highlight_element_names());
    }
    r
}

/// The names of the list elements that [`list_policy`] excludes.
pub open spec fn list_element_names() -> Seq<Seq<char>> {
    seq!["li"@, "ul"@, "ol"@]
}

/// Excludes the list elements — `li`, `ul` and `ol` — from the directive's
/// default treatment.
pub fn list_policy<T: SanitizeDirective>() -> (r: Policy<T>)
    ensures
        r.spec_excluded() == list_element_names(),
        r.spec_removed() == Seq::<Seq<char>>::empty(),
        r.spec_attr_rules() == Seq::<AttributeRuleModel>::empty(),
{
    let elements = ["li", "ul", "ol"];
    let r = Policy::builder().exclude_elements(&elements).build();
    proof {
        assert(r.spec_excluded() =~= list_element_names());
    }
    r
}

/// The attribute rules of [`table_attr_policy`].
pub open spec fn table_attr_rules() -> Seq<AttributeRuleModel> {
    seq![
        AttributeRuleModel { element: Some("colgroup"@), attributes: seq!["span"@] },
        AttributeRuleModel { element: Some("col"@), attributes: seq!["span"@] },
        AttributeRuleModel {
            element: Some("th"@),
            attributes: seq!["abbr"@, "colspan"@, "headers"@, "rowspan"@, "scope"@],
        },
        AttributeRuleModel {
            element: Some("td"@),
            attributes: seq!["colspan"@, "headers"@, "rowspan"@],
        },
    ]
}

/// Excludes the table elements' own attributes from the directive's default
/// treatment: `span` on `colgroup` and `col`, the header and span attributes
/// on `th` and `td`.
pub fn table_attr_policy<T: SanitizeDirective>() -> (r: Policy<T>)
    ensures
        r.spec_excluded() == Seq::<Seq<char>>::empty(),
        r.spec_removed() == Seq::<Seq<char>>::empty(),
        r.spec_attr_rules() == table_attr_rules(),
{
    let r = Policy::builder()
        .exclude_element_attrs("colgroup", &["span"])
        .exclude_element_attrs("col", &["span"])
        .exclude_element_attrs("th", &["abbr", "colspan", "headers", "rowspan", "scope"])
        .exclude_element_attrs("td", &["colspan", "headers", "rowspan"])
        .build();
    proof {
        assert(r.spec_attr_rules() =~~= table_attr_rules());
    }
    r
}

/// The attribute rule of [`global_attr_policy`].
pub open spec fn global_attr_rules() -> Seq<AttributeRuleModel> {
    seq![
        AttributeRuleModel {
            element: None,
            attributes: seq!["class"@, "dir"@, "id"@, "role"@, "lang"@, "title"@],
        },
    ]
}

/// Excludes the global attributes — `class`, `dir`, `id`, `role`, `lang` and
/// `title` — on every element from the directive's default treatment.
pub fn global_attr_policy<T: SanitizeDirective>() -> (r: Policy<T>)
    ensures
        r.spec_excluded() == Seq::<Seq<char>>::empty(),
        r.spec_removed() == Seq::<Seq<char>>::empty(),
        r.spec_attr_rules() == global_attr_rules(),
{
    let r = Policy::builder().exclude_attrs(&["class", "dir", "id", "role", "lang", "title"]).build();
    proof {
        assert(r.spec_attr_rules() =~~= global_attr_rules());
    }
    r
}

} // verus!
