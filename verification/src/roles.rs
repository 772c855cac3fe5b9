//! The redundant-role rule: flag an element whose explicit `role` attribute
//! names the same role the element already has implicitly.
//!
//! The rule works on a plain model of a host-language element: its tag
//! name and its attribute list, each attribute a name with an optional
//! static text value. The implicit role of an element is computed by the
//! host's ARIA metadata and handed in; recognising role names is done by
//! the ARIA metadata crate behind trusted wrappers.

use vstd::prelude::*;

verus! {

/// Does this word name one of the fixed ARIA widget roles?
pub uninterp spec fn is_widget_role(w: Seq<char>) -> bool;

/// Does this word name one of the fixed abstract ARIA roles?
pub uninterp spec fn is_abstract_role(w: Seq<char>) -> bool;

/// Does this word name one of the fixed ARIA document-structure roles?
pub uninterp spec fn is_document_structure_role(w: Seq<char>) -> bool;

/// The maximal runs of characters that are not ASCII whitespace, in
/// order; Unicode-only whitespace does not separate words.
pub uninterp spec fn ascii_words(s: Seq<char>) -> Seq<Seq<char>>;

/// Relies on `biome_aria_metadata::AriaWidgetRolesEnum::from_str`, which
/// accepts exactly the fixed widget role names, matched verbatim.
#[verifier::external_body]
fn word_is_widget_role(w: &str) -> (r: bool)
    ensures
        r == is_widget_role(w@),
{
    <biome_aria_metadata::AriaWidgetRolesEnum as std::str::FromStr>::from_str(w).is_ok()
}

/// Relies on `biome_aria_metadata::AriaAbstractRolesEnum::from_str`, which
/// accepts exactly the fixed abstract role names, matched verbatim.
#[verifier::external_body]
fn word_is_abstract_role(w: &str) -> (r: bool)
    ensures
        r == is_abstract_role(w@),
{
    <biome_aria_metadata::AriaAbstractRolesEnum as std::str::FromStr>::from_str(w).is_ok()
}

/// Relies on `biome_aria_metadata::AriaDocumentStructureRolesEnum::from_str`,
/// which accepts exactly the fixed document-structure role names, matched
/// verbatim.
#[verifier::external_body]
fn word_is_document_structure_role(w: &str) -> (r: bool)
    ensures
        r == is_document_structure_role(w@),
{
    <biome_aria_metadata::AriaDocumentStructureRolesEnum as std::str::FromStr>::from_str(w).is_ok()
}

/// Relies on `str::split_ascii_whitespace`: the word list is a function of
/// the characters alone, and an empty string has no words.
#[verifier::external_body]
fn split_ascii_words(s: &str) -> (r: Vec<String>)
    ensures
        r.deep_view() == ascii_words(s@),
        s@.len() == 0 ==> r@.len() == 0,
{
    s.split_ascii_whitespace().map(|w| w.to_owned()).collect()
}

/// A word names a known role if any of the fixed role sets contains it.
pub open spec fn known_role(w: Seq<char>) -> bool {
    is_widget_role(w) || is_abstract_role(w) || is_document_structure_role(w)
}

/// The first word of the list that names a known role, if any.
pub open spec fn first_known_role(words: Seq<Seq<char>>) -> Option<Seq<char>>
    decreases words.len(),
{
    if words.len() == 0 {
        None
    } else if known_role(words[0]) {
        Some(words[0])
    } else {
        first_known_role(words.drop_first())
    }
}

/// The explicit role an attribute text denotes: its first whitespace-
/// separated word that names a known role.
pub open spec fn explicit_role_of(text: Seq<char>) -> Option<Seq<char>> {
    first_known_role(ascii_words(text))
}

/// If no word before `i` names a role, the search result is decided by the
/// rest of the list.
proof fn lemma_first_known_role_skip(words: Seq<Seq<char>>, i: int)
    requires
        0 <= i <= words.len(),
        forall|j: int| 0 <= j < i ==> !known_role(words[j]),
    ensures
        first_known_role(words) == first_known_role(words.skip(i)),
    decreases i,
{
    if i > 0 {
        assert(words.skip(0) =~= words);
        assert(!known_role(words[0]));
        lemma_first_known_role_skip(words.drop_first(), i - 1);
        assert(words.drop_first().skip(i - 1) =~= words.skip(i));
    } else {
        assert(words.skip(0) =~= words);
    }
}

/// If a role attribute has multiple values, the first valid value
/// (the specified role) is used.
pub fn get_explicit_role(role_attribute_value: &str) -> (r: Option<String>)
    ensures
        r.deep_view() == explicit_role_of(role_attribute_value@),
{
    let words = split_ascii_words(role_attribute_value);
    let ghost all = words.deep_view();
    let n = words.len();
    let mut i: usize = 0;
    while i < n
        invariant
            n == words@.len(),
            0 <= i <= n,
            all == words.deep_view(),
            all == ascii_words(role_attribute_value@),
            forall|j: int| 0 <= j < i ==> !known_role(words@[j]@),
        decreases n - i,
    {
        let w = &words[i];
        if word_is_widget_role(w.as_str()) || word_is_abstract_role(w.as_str())
            || word_is_document_structure_role(w.as_str()) {
            proof {
                lemma_first_known_role_skip(all, i as int);
                assert(all.skip(i as int)[0] == words@[i as int]@);
            }
            return Some(w.clone());
        }
        i = i + 1;
    }
    proof {
        lemma_first_known_role_skip(all, n as int);
        assert(all.skip(n as int) =~= Seq::<Seq<char>>::empty());
    }
    None
}

/// One attribute of an element: its name, and its static text value if it
/// has one the host parser could read.
pub struct JsxAttribute {
    pub name: String,
    pub value: Option<String>,
}

impl Clone for JsxAttribute {
    fn clone(&self) -> (r: JsxAttribute)
        ensures
            r == *self,
    {
        JsxAttribute {
            name: self.name.clone(),
            value: match &self.value {
                Some(v) => Some(v.clone()),
                None => None,
            },
        }
    }
}

/// An element as this rule reads one: an opening or a self-closing tag,
/// with its name (if readable) and its attributes.
pub enum AnyJsxElement {
    OpeningElement { name: Option<String>, attributes: Vec<JsxAttribute> },
    SelfClosingElement { name: Option<String>, attributes: Vec<JsxAttribute> },
}

/// The element's tag name, if the host parser could read it.
pub open spec fn element_name_of(node: AnyJsxElement) -> Option<String> {
    match node {
        AnyJsxElement::OpeningElement { name, .. } => name,
        AnyJsxElement::SelfClosingElement { name, .. } => name,
    }
}

/// The element's attribute list.
pub open spec fn element_attributes_of(node: AnyJsxElement) -> Seq<JsxAttribute> {
    match node {
        AnyJsxElement::OpeningElement { attributes, .. } => attributes@,
        AnyJsxElement::SelfClosingElement { attributes, .. } => attributes@,
    }
}

/// The first attribute with the given name, if any.
pub open spec fn first_attribute_named(attrs: Seq<JsxAttribute>, name: Seq<char>)
    -> Option<JsxAttribute>
    decreases attrs.len(),
{
    if attrs.len() == 0 {
        None
    } else if attrs[0].name@ == name {
        Some(attrs[0])
    } else {
        first_attribute_named(attrs.drop_first(), name)
    }
}

/// If no attribute before `i` carries the name, the search result is
/// decided by the rest of the list.
proof fn lemma_first_attribute_named_skip(attrs: Seq<JsxAttribute>, name: Seq<char>, i: int)
    requires
        0 <= i <= attrs.len(),
        forall|j: int| 0 <= j < i ==> attrs[j].name@ != name,
    ensures
        first_attribute_named(attrs, name) == first_attribute_named(attrs.skip(i), name),
    decreases i,
{
    if i > 0 {
        lemma_first_attribute_named_skip(attrs.drop_first(), name, i - 1);
        assert(attrs.drop_first().skip(i - 1) =~= attrs.skip(i));
    } else {
        assert(attrs.skip(0) =~= attrs);
    }
}

/// The first attribute of the element with the given name, if any.
pub fn find_attribute_by_name<'a>(attrs: &'a Vec<JsxAttribute>, name: &String)
    -> (r: Option<&'a JsxAttribute>)
    ensures
        match r {
            Some(a) => first_attribute_named(attrs@, name@) == Some(*a),
            None => first_attribute_named(attrs@, name@) is None,
        },
{
    let n = attrs.len();
    let mut i: usize = 0;
    while i < n
        invariant
            n == attrs@.len(),
            0 <= i <= n,
            forall|j: int| 0 <= j < i ==> attrs@[j].name@ != name@,
        decreases n - i,
    {
        if attrs[i].name == *name {
            proof {
                lemma_first_attribute_named_skip(attrs@, name@, i as int);
                assert(attrs@.skip(i as int)[0] == attrs@[i as int]);
            }
            return Some(&attrs[i]);
        }
        i = i + 1;
    }
    proof {
        lemma_first_attribute_named_skip(attrs@, name@, n as int);
        assert(attrs@.skip(n as int) =~= Seq::<JsxAttribute>::empty());
    }
    None
}

/// The element's tag name and attribute list, if the name is readable.
pub fn get_element_name_and_attributes<'a>(node: &'a AnyJsxElement)
    -> (r: Option<(&'a String, &'a Vec<JsxAttribute>)>)
    ensures
        match r {
            Some(t) => element_name_of(*node) == Some(*t.0)
                && element_attributes_of(*node) == t.1@,
            None => element_name_of(*node) is None,
        },
{
    match node {
        AnyJsxElement::OpeningElement { name, attributes } => match name {
            Some(n) => Some((n, attributes)),
            None => None,
        },
        AnyJsxElement::SelfClosingElement { name, attributes } => match name {
            Some(n) => Some((n, attributes)),
            None => None,
        },
    }
}

/// What the rule reports for a redundant role: the attribute to remove,
/// its static text, and the element's name.
pub struct RuleState {
    pub redundant_attribute: JsxAttribute,
    pub redundant_attribute_value: String,
    pub element_name: String,
}

/// The exact decision of the rule: a state is produced when the element
/// name is readable, the host metadata knows an implicit role, a `role`
/// attribute with a static value exists, that value's first recognised
/// role word exists, and it equals the implicit role.
pub open spec fn redundant_role_signal(node: AnyJsxElement, implicit_role: Option<String>)
    -> Option<RuleState>
{
    match element_name_of(node) {
        None => None,
        Some(element_name) => match implicit_role {
            None => None,
            Some(implicit) => match first_attribute_named(
                element_attributes_of(node), "role"@,
            ) {
                None => None,
                Some(attr) => match attr.value {
                    None => None,
                    Some(value) => match explicit_role_of(value@) {
                        None => None,
                        Some(explicit) => if explicit == implicit@ {
                            Some(RuleState {
                                redundant_attribute: attr,
                                redundant_attribute_value: value,
                                element_name,
                            })
                        } else {
                            None
                        },
                    },
                },
            },
        },
    }
}

/// The rule itself, named as its consumers know it.
pub struct NoRedundantRoles;

impl NoRedundantRoles {
    /// Decide the signal for one element. `implicit_role` is the element's
    /// implicit ARIA role as the host's metadata computes it from the
    /// element name and attributes; `None` means the host knows none, and
    /// the rule is silent.
    pub fn run(node: &AnyJsxElement, implicit_role: &Option<String>) -> (r: Option<RuleState>)
        ensures
            r == redundant_role_signal(*node, *implicit_role),
    {
        let (element_name, attributes) = match get_element_name_and_attributes(node) {
            Some(t) => t,
            None => {
                return None;
            }
        };
        let implicit = match implicit_role {
            Some(i) => i,
            None => {
                return None;
            }
        };

        let role_name = String::from_str("role");
        let role_attribute = match find_attribute_by_name(attributes, &role_name) {
            Some(a) => a,
            None => {
                return None;
            }
        };
        let role_attribute_value = match &role_attribute.value {
            Some(v) => v,
            None => {
                return None;
            }
        };

        let explicit_role = match get_explicit_role(role_attribute_value.as_str()) {
            Some(e) => e,
            None => {
                return None;
            }
        };

        let is_redundant = explicit_role == *implicit;
        if is_redundant {
            return Some(RuleState {
                redundant_attribute: role_attribute.clone(),
                redundant_attribute_value: role_attribute_value.clone(),
                element_name: element_name.clone(),
            });
        }
        None
    }

    /// The diagnostic wording for a redundant role; binding it to the
    /// attribute's source range and rendering it is the caller's concern.
    pub fn diagnostic(state: &RuleState) -> (r: String)
        ensures
            r@ == "Using the role attribute '"@ + state.redundant_attribute_value@
                + "' on the '"@ + state.element_name@
                + "' element is redundant, because it is implied by the semantic '"@
                + state.element_name@ + "' element."@,
    {
        let mut msg = String::from_str("Using the role attribute '");
        msg.append(state.redundant_attribute_value.as_str());
        msg.append("' on the '");
        msg.append(state.element_name.as_str());
        msg.append("' element is redundant, because it is implied by the semantic '");
        msg.append(state.element_name.as_str());
        msg.append("' element.");
        msg
    }
}

} // verus!
