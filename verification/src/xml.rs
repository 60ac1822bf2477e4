//! A document is held as a tree of owned elements.  The tree is built
//! once per document by the XML parser behind a trusted boundary; all
//! navigation over it — child lookup, descendant search, attribute
//! lookup — is verified against a mathematical model of the tree.
use vstd::prelude::*;

use crate::text::str_eq;

verus! {

/// One XML element: local name, namespace URI (empty when the element
/// has none), its attributes in document order, the text directly
/// under it (if its first child is a text node), and its element
/// children in document order.
pub struct XmlElem {
    pub name: String,
    pub ns: String,
    pub attrs: Vec<(String, String)>,
    pub text: Option<String>,
    pub children: Vec<XmlElem>,
}

/// The mathematical model of an element.
#[verifier::ext_equal]
pub struct XmlSpec {
    pub name: Seq<char>,
    pub ns: Seq<char>,
    pub attrs: Seq<(Seq<char>, Seq<char>)>,
    pub text: Option<Seq<char>>,
    pub children: Seq<XmlSpec>,
}

/// The models of a sequence of elements.
pub open spec fn view_elem_seq(s: Seq<XmlElem>) -> Seq<XmlSpec>
    decreases s,
{
    if s.len() == 0 {
        Seq::empty()
    } else {
        view_elem_seq(s.drop_last()).push(s.last()@)
    }
}

impl View for XmlElem {
    type V = XmlSpec;

    open spec fn view(&self) -> XmlSpec
        decreases self,
    {
        XmlSpec {
            name: self.name@,
            ns: self.ns@,
            attrs: self.attrs.deep_view(),
            text: self.text.deep_view(),
            children: view_elem_seq(self.children@),
        }
    }
}

pub proof fn lemma_view_elem_seq(s: Seq<XmlElem>)
    ensures
        view_elem_seq(s).len() == s.len(),
        forall|i: int| 0 <= i < s.len() ==> view_elem_seq(s)[i] == s[i]@,
    decreases s.len(),
{
    if s.len() > 0 {
        lemma_view_elem_seq(s.drop_last());
        let a = view_elem_seq(s.drop_last());
        assert(view_elem_seq(s) == a.push(s.last()@));
        assert(a.len() == s.len() - 1);
        assert forall|i: int| 0 <= i < s.len() implies view_elem_seq(s)[i] == s[i]@ by {
            if i < s.len() - 1 {
                assert(a.push(s.last()@)[i] == a[i]);
                assert(s.drop_last()[i] == s[i]);
            } else {
                assert(a.push(s.last()@)[i] == s.last()@);
            }
        }
    }
}

/// The models of a sequence of borrowed elements.
pub open spec fn view_ref_seq(s: Seq<&XmlElem>) -> Seq<XmlSpec>
    decreases s,
{
    if s.len() == 0 {
        Seq::empty()
    } else {
        view_ref_seq(s.drop_last()).push(s.last()@)
    }
}

pub proof fn lemma_view_ref_seq(s: Seq<&XmlElem>)
    ensures
        view_ref_seq(s).len() == s.len(),
        forall|i: int| 0 <= i < s.len() ==> view_ref_seq(s)[i] == s[i]@,
    decreases s.len(),
{
    if s.len() > 0 {
        lemma_view_ref_seq(s.drop_last());
        let a = view_ref_seq(s.drop_last());
        assert(view_ref_seq(s) == a.push(s.last()@));
        assert(a.len() == s.len() - 1);
        assert forall|i: int| 0 <= i < s.len() implies view_ref_seq(s)[i] == s[i]@ by {
            if i < s.len() - 1 {
                assert(a.push(s.last()@)[i] == a[i]);
                assert(s.drop_last()[i] == s[i]);
            } else {
                assert(a.push(s.last()@)[i] == s.last()@);
            }
        }
    }
}

// ---------------------------------------------------------------
// Namespaces
// ---------------------------------------------------------------
/// Namespace URI of the outer document vocabulary.
pub open spec fn ns_doc() -> Seq<char> {
    "http://www.moj.go.jp/MINJI/tizuxml"@
}

/// Namespace URI of the spatial-primitive vocabulary.
pub open spec fn ns_zmn() -> Seq<char> {
    "http://www.moj.go.jp/MINJI/tizuzumen"@
}

pub open spec fn ns_xsi() -> Seq<char> {
    "http://www.w3.org/2001/XMLSchema-instance"@
}

pub open spec fn spec_xml_namespace(prefix: Option<Seq<char>>) -> Option<Seq<char>> {
    match prefix {
        None => Some(ns_doc()),
        Some(p) => if p == "zmn"@ {
            Some(ns_zmn())
        } else if p == "xsi"@ {
            Some(ns_xsi())
        } else {
            None
        },
    }
}

/// The namespace URI bound to a well-known prefix of the document
/// vocabulary, or `None` for an unknown prefix.
pub fn get_xml_namespace(prefix: Option<&str>) -> (r: Option<&'static str>)
    ensures
        match spec_xml_namespace(
            match prefix {
                Some(p) => Some(p@),
                None => None,
            },
        ) {
            Some(u) => r matches Some(x) && x@ == u,
            None => r is None,
        },
{
    match prefix {
        None => Some("http://www.moj.go.jp/MINJI/tizuxml"),
        Some(p) => {
            if str_eq(p, "zmn") {
                Some("http://www.moj.go.jp/MINJI/tizuzumen")
            } else if str_eq(p, "xsi") {
                Some("http://www.w3.org/2001/XMLSchema-instance")
            } else {
                None
            }
        },
    }
}

// ---------------------------------------------------------------
// Attribute lookup
// ---------------------------------------------------------------
/// The value of the first attribute named `name`, scanning from `i`.
pub open spec fn attr_from(
    attrs: Seq<(Seq<char>, Seq<char>)>,
    name: Seq<char>,
    i: int,
) -> Option<Seq<char>>
    decreases attrs.len() - i,
{
    if i < 0 || i >= attrs.len() {
        None
    } else if attrs[i].0 == name {
        Some(attrs[i].1)
    } else {
        attr_from(attrs, name, i + 1)
    }
}

/// The value of the attribute named `name`, if the element has one.
pub open spec fn attr_of(e: XmlSpec, name: Seq<char>) -> Option<Seq<char>> {
    attr_from(e.attrs, name, 0)
}

impl XmlElem {
    /// Look up an attribute by name.
    #[verifier::loop_isolation(false)]
    pub fn attr<'a>(&'a self, name: &str) -> (r: Option<&'a String>)
        ensures
            r is Some <==> attr_of(self@, name@) is Some,
            r matches Some(v) ==> attr_of(self@, name@) == Some(v@),
    {
        let mut i: usize = 0;
        while i < self.attrs.len()
            invariant
                0 <= i <= self.attrs@.len(),
                attr_from(self@.attrs, name@, 0) == attr_from(self@.attrs, name@, i as int),
            decreases self.attrs@.len() - i,
        {
            proof {
                assert(self@.attrs[i as int] == (self.attrs@[i as int].0@, self.attrs@[
                    i as int].1@));
            }
            if str_eq(self.attrs[i].0.as_str(), name) {
                return Some(&self.attrs[i].1);
            }
            i = i + 1;
        }
        None
    }

    /// The text directly under this element, if any.
    pub fn text_ref<'a>(&'a self) -> (r: Option<&'a String>)
        ensures
            r is Some <==> self@.text is Some,
            r matches Some(v) ==> self@.text == Some(v@),
    {
        match &self.text {
            Some(t) => Some(t),
            None => None,
        }
    }
}

// ---------------------------------------------------------------
// Child lookup (by local name, any namespace)
// ---------------------------------------------------------------
/// The first child named `name`, scanning from `i`.
pub open spec fn child_from(cs: Seq<XmlSpec>, name: Seq<char>, i: int) -> Option<XmlSpec>
    decreases cs.len() - i,
{
    if i < 0 || i >= cs.len() {
        None
    } else if cs[i].name == name {
        Some(cs[i])
    } else {
        child_from(cs, name, i + 1)
    }
}

/// The first child element of `e` with local name `name`.
pub open spec fn find_child(e: XmlSpec, name: Seq<char>) -> Option<XmlSpec> {
    child_from(e.children, name, 0)
}

/// The first child element with the given local name, in any namespace.
#[verifier::loop_isolation(false)]
pub fn get_child_element<'a>(e: &'a XmlElem, name: &str) -> (r: Option<&'a XmlElem>)
    ensures
        r is Some <==> find_child(e@, name@) is Some,
        r matches Some(c) ==> find_child(e@, name@) == Some(c@),
{
    proof {
        lemma_view_elem_seq(e.children@);
    }
    let mut i: usize = 0;
    while i < e.children.len()
        invariant
            0 <= i <= e.children@.len(),
            child_from(e@.children, name@, 0) == child_from(e@.children, name@, i as int),
        decreases e.children@.len() - i,
    {
        if str_eq(e.children[i].name.as_str(), name) {
            return Some(&e.children[i]);
        }
        i = i + 1;
    }
    None
}

// ---------------------------------------------------------------
// Children filtered by (name, namespace)
// ---------------------------------------------------------------
/// The children named `name` in namespace `ns`, from position `i` on.
pub open spec fn filtered_from(
    cs: Seq<XmlSpec>,
    name: Seq<char>,
    ns: Seq<char>,
    i: int,
) -> Seq<XmlSpec>
    decreases cs.len() - i,
{
    if i < 0 || i >= cs.len() {
        Seq::empty()
    } else if cs[i].name == name && cs[i].ns == ns {
        seq![cs[i]] + filtered_from(cs, name, ns, i + 1)
    } else {
        filtered_from(cs, name, ns, i + 1)
    }
}

/// The child elements of `e` with the given name and namespace, in order.
pub open spec fn children_named(e: XmlSpec, name: Seq<char>, ns: Seq<char>) -> Seq<XmlSpec> {
    filtered_from(e.children, name, ns, 0)
}

/// The children of `e` with the given local name and namespace.
#[verifier::loop_isolation(false)]
pub fn children_with<'a>(e: &'a XmlElem, name: &str, ns: &str) -> (r: Vec<&'a XmlElem>)
    ensures
        view_ref_seq(r@) == children_named(e@, name@, ns@),
{
    proof {
        lemma_view_elem_seq(e.children@);
    }
    let mut out: Vec<&'a XmlElem> = Vec::new();
    let mut i: usize = 0;
    while i < e.children.len()
        invariant
            0 <= i <= e.children@.len(),
            view_ref_seq(out@) + filtered_from(e@.children, name@, ns@, i as int) =~= filtered_from(
                e@.children,
                name@,
                ns@,
                0,
            ),
        decreases e.children@.len() - i,
    {
        let c = &e.children[i];
        if str_eq(c.name.as_str(), name) && str_eq(c.ns.as_str(), ns) {
            let ghost prev = out@;
            out.push(c);
            proof {
                assert(out@.drop_last() =~= prev);
                assert(view_ref_seq(out@) =~= view_ref_seq(prev).push(c@));
                assert(view_ref_seq(prev).push(c@) + filtered_from(e@.children, name@, ns@, i + 1)
                    =~= view_ref_seq(prev) + (seq![e@.children[i as int]] + filtered_from(
                    e@.children,
                    name@,
                    ns@,
                    i + 1,
                )));
            }
        }
        i = i + 1;
    }
    out
}

// ---------------------------------------------------------------
// Descendant search (element itself included, document order)
// ---------------------------------------------------------------
/// The first of `e` and its descendants, in document order, with the
/// given name and namespace.
pub open spec fn find_desc(e: XmlSpec, name: Seq<char>, ns: Seq<char>) -> Option<XmlSpec>
    decreases e,
{
    if e.name == name && e.ns == ns {
        Some(e)
    } else {
        find_desc_from(e.children, name, ns, 0)
    }
}

pub open spec fn find_desc_from(
    cs: Seq<XmlSpec>,
    name: Seq<char>,
    ns: Seq<char>,
    i: int,
) -> Option<XmlSpec>
    decreases cs, cs.len() - i,
{
    if i < 0 || i >= cs.len() {
        None
    } else {
        match find_desc(cs[i], name, ns) {
            Some(d) => Some(d),
            None => find_desc_from(cs, name, ns, i + 1),
        }
    }
}

/// Depth-first search for the first matching element, itself included.
#[verifier::loop_isolation(false)]
pub fn find_descendant<'a>(e: &'a XmlElem, name: &str, ns: &str) -> (r: Option<&'a XmlElem>)
    ensures
        r is Some <==> find_desc(e@, name@, ns@) is Some,
        r matches Some(d) ==> find_desc(e@, name@, ns@) == Some(d@),
    decreases *e,
{
    if str_eq(e.name.as_str(), name) && str_eq(e.ns.as_str(), ns) {
        return Some(e);
    }
    proof {
        lemma_view_elem_seq(e.children@);
    }
    let mut i: usize = 0;
    while i < e.children.len()
        invariant
            0 <= i <= e.children@.len(),
            !(e@.name == name@ && e@.ns == ns@),
            find_desc_from(e@.children, name@, ns@, 0) == find_desc_from(
                e@.children,
                name@,
                ns@,
                i as int,
            ),
        decreases e.children@.len() - i,
    {
        let c = &e.children[i];
        match find_descendant(c, name, ns) {
            Some(d) => {
                return Some(d);
            },
            None => {},
        }
        i = i + 1;
    }
    None
}

/// All of `e` and its descendants, in document order, with the given
/// name and namespace.
pub open spec fn desc_all(e: XmlSpec, name: Seq<char>, ns: Seq<char>) -> Seq<XmlSpec>
    decreases e,
{
    if e.name == name && e.ns == ns {
        seq![e] + desc_all_from(e.children, name, ns, 0)
    } else {
        desc_all_from(e.children, name, ns, 0)
    }
}

pub open spec fn desc_all_from(
    cs: Seq<XmlSpec>,
    name: Seq<char>,
    ns: Seq<char>,
    i: int,
) -> Seq<XmlSpec>
    decreases cs, cs.len() - i,
{
    if i < 0 || i >= cs.len() {
        Seq::empty()
    } else {
        desc_all(cs[i], name, ns) + desc_all_from(cs, name, ns, i + 1)
    }
}

/// Collect all matching descendants (the element itself included), in
/// document order, appending to `out`.
#[verifier::loop_isolation(false)]
pub fn collect_descendants<'a>(e: &'a XmlElem, name: &str, ns: &str, out: &mut Vec<&'a XmlElem>)
    ensures
        view_ref_seq(final(out)@) =~= view_ref_seq(old(out)@) + desc_all(e@, name@, ns@),
    decreases *e,
{
    if str_eq(e.name.as_str(), name) && str_eq(e.ns.as_str(), ns) {
        let ghost prev = out@;
        out.push(e);
        proof {
            assert(out@.drop_last() =~= prev);
            assert(view_ref_seq(out@) =~= view_ref_seq(prev).push(e@));
        }
    }
    proof {
        lemma_view_elem_seq(e.children@);
    }
    let ghost base = out@;
    let mut i: usize = 0;
    while i < e.children.len()
        invariant
            0 <= i <= e.children@.len(),
            view_ref_seq(out@) =~= view_ref_seq(base) + desc_taken(e@, name@, ns@, i as int),
        decreases e.children@.len() - i,
    {
        let c = &e.children[i];
        let ghost before = out@;
        collect_descendants(c, name, ns, out);
        proof {
            lemma_desc_taken_step(e@, name@, ns@, i as int);
            assert(view_ref_seq(out@) =~= view_ref_seq(base) + desc_taken(
                e@,
                name@,
                ns@,
                i + 1,
            ));
        }
        i = i + 1;
    }
    proof {
        lemma_desc_taken_all(e@, name@, ns@);
    }
}

/// The matches found in the first `i` children of `e`.
pub open spec fn desc_taken(e: XmlSpec, name: Seq<char>, ns: Seq<char>, i: int) -> Seq<XmlSpec>
    decreases i,
{
    if i <= 0 {
        Seq::empty()
    } else {
        desc_taken(e, name, ns, i - 1) + if 0 <= i - 1 < e.children.len() {
            desc_all(e.children[i - 1], name, ns)
        } else {
            Seq::empty()
        }
    }
}

proof fn lemma_desc_taken_step(e: XmlSpec, name: Seq<char>, ns: Seq<char>, i: int)
    requires
        0 <= i < e.children.len(),
    ensures
        desc_taken(e, name, ns, i + 1) =~= desc_taken(e, name, ns, i) + desc_all(
            e.children[i],
            name,
            ns,
        ),
{
}

proof fn lemma_desc_taken_all(e: XmlSpec, name: Seq<char>, ns: Seq<char>)
    ensures
        desc_taken(e, name, ns, e.children.len() as int) =~= desc_all_from(e.children, name, ns, 0),
{
    lemma_desc_taken_mid(e, name, ns, 0);
}

proof fn lemma_desc_taken_mid(e: XmlSpec, name: Seq<char>, ns: Seq<char>, i: int)
    requires
        0 <= i <= e.children.len(),
    ensures
        desc_taken(e, name, ns, e.children.len() as int) =~= desc_taken(e, name, ns, i)
            + desc_all_from(e.children, name, ns, i),
    decreases e.children.len() - i,
{
    if i == e.children.len() {
    } else {
        lemma_desc_taken_mid(e, name, ns, i + 1);
        lemma_desc_taken_step(e, name, ns, i);
    }
}

// ---------------------------------------------------------------
// The trusted boundary: XML text to element tree
// ---------------------------------------------------------------
#[verifier::external_type_specification]
#[verifier::external_body]
pub struct ExXmlNode<'a, 'input: 'a>(roxmltree::Node<'a, 'input>);

/// The element tree denoted by an XML text: the root element of the
/// parsed document, or `None` when the text is not well-formed XML.
/// The result depends on the text alone.
pub uninterp spec fn xml_tree_of(text: Seq<char>) -> Option<XmlSpec>;

/// Relies on roxmltree::Document::parse: deterministic parsing of the
/// text into a node tree, of which the root element is converted.
#[verifier::external_body]
pub fn parse_xml_tree(text: &str) -> (r: Option<XmlElem>)
    ensures
        r is Some <==> xml_tree_of(text@) is Some,
        r matches Some(e) ==> xml_tree_of(text@) == Some(e@),
{
    match roxmltree::Document::parse(text) {
        Ok(doc) => Some(convert_node(doc.root_element())),
        Err(_) => None,
    }
}

/// Relies on roxmltree's node accessors (tag_name, attributes, text,
/// children): copies one node and its element descendants into owned
/// elements, field for field.
#[verifier::external_body]
fn convert_node(n: roxmltree::Node) -> XmlElem {
    XmlElem {
        name: n.tag_name().name().to_string(),
        ns: n.tag_name().namespace().unwrap_or("").to_string(),
        attrs: n.attributes().map(|a| (a.name().to_string(), a.value().to_string())).collect(),
        text: n.text().map(|t| t.to_string()),
        children: n.children().filter(|c| c.is_element()).map(convert_node).collect(),
    }
}

// ---------------------------------------------------------------
// Child lookup (by local name and namespace)
// ---------------------------------------------------------------
/// The first child named `name` in namespace `ns`, scanning from `i`.
pub open spec fn child_ns_from(
    cs: Seq<XmlSpec>,
    name: Seq<char>,
    ns: Seq<char>,
    i: int,
) -> Option<XmlSpec>
    decreases cs.len() - i,
{
    if i < 0 || i >= cs.len() {
        None
    } else if cs[i].name == name && cs[i].ns == ns {
        Some(cs[i])
    } else {
        child_ns_from(cs, name, ns, i + 1)
    }
}

/// The first child element of `e` with the given name and namespace.
pub open spec fn find_child_ns(e: XmlSpec, name: Seq<char>, ns: Seq<char>) -> Option<XmlSpec> {
    child_ns_from(e.children, name, ns, 0)
}

/// The first child element with the given local name and namespace.
#[verifier::loop_isolation(false)]
pub fn get_child_element_ns<'a>(e: &'a XmlElem, name: &str, ns: &str) -> (r: Option<&'a XmlElem>)
    ensures
        r is Some <==> find_child_ns(e@, name@, ns@) is Some,
        r matches Some(c) ==> find_child_ns(e@, name@, ns@) == Some(c@),
{
    proof {
        lemma_view_elem_seq(e.children@);
    }
    let mut i: usize = 0;
    while i < e.children.len()
        invariant
            0 <= i <= e.children@.len(),
            child_ns_from(e@.children, name@, ns@, 0) == child_ns_from(
                e@.children,
                name@,
                ns@,
                i as int,
            ),
        decreases e.children@.len() - i,
    {
        let c = &e.children[i];
        if str_eq(c.name.as_str(), name) && str_eq(c.ns.as_str(), ns) {
            return Some(c);
        }
        i = i + 1;
    }
    None
}

/// The first element child of `e`, if it has one.
pub fn first_element_child<'a>(e: &'a XmlElem) -> (r: Option<&'a XmlElem>)
    ensures
        r is Some <==> e@.children.len() > 0,
        r matches Some(c) ==> e@.children.len() > 0 && c@ == e@.children[0],
{
    proof {
        lemma_view_elem_seq(e.children@);
    }
    if e.children.len() > 0 {
        Some(&e.children[0])
    } else {
        None
    }
}

} // verus!
