//! A plain XML tree and the trusted boundary to the XML parser.
//!
//! The catalogs mix namespaced and unnamespaced vocabularies, so the harness
//! matches elements and attributes by local name alone; the tree therefore
//! keeps local names, attributes and text, and drops namespaces, comments
//! and processing instructions.

use vstd::prelude::*;

verus! {

/// An attribute: local name and value.
#[derive(Debug, Clone)]
pub struct XmlAttr {
    pub name: String,
    pub value: String,
}

/// An element: local name, attributes, children in document order.
#[derive(Debug)]
pub struct XmlElement {
    pub name: String,
    pub attrs: Vec<XmlAttr>,
    pub children: Vec<XmlNode>,
}

/// A node of the plain tree.
#[derive(Debug)]
pub enum XmlNode {
    Element(XmlElement),
    Text(String),
}

} // verus!

verus! {

/// Declares xot's arena (`xot::Xot`) to the verifier; its values stay opaque.
#[verifier::external_type_specification]
#[verifier::external_body]
pub struct ExXot(xot::Xot);

/// Declares xot's node handle (`xot::Node`) to the verifier.
#[verifier::external_type_specification]
#[verifier::external_body]
pub struct ExXotNode(xot::Node);

/// Declares xot's interned name handle (`xot::NameId`) to the verifier.
#[verifier::external_type_specification]
#[verifier::external_body]
pub struct ExXotNameId(xot::NameId);

/// What the XML parser makes of a text: the document element as a plain
/// tree, or nothing where the text is not well-formed XML.
pub uninterp spec fn parsed_xml(s: Seq<char>) -> Option<XmlElement>;

/// Relies on `xot::Xot::parse` and `xot::Xot::document_element`: parsing is a
/// pure function of the text, and the converted document element is returned,
/// or `None` for text that is not a well-formed XML document.
#[verifier::external_body]
pub fn parse_xml_text(text: &str) -> (r: Option<XmlElement>)
    ensures
        r == parsed_xml(text@),
{
    let mut xot = xot::Xot::new();
    match xot.parse(text) {
        Ok(doc) => match xot.document_element(doc) {
            Ok(el) => match convert_node(&xot, el) {
                Some(XmlNode::Element(e)) => Some(e),
                _ => None,
            },
            Err(_) => None,
        },
        Err(_) => None,
    }
}

/// Relies on xot's accessors `value`, `children` and `Text::get`: one node
/// converted to the plain tree; elements and text are kept, everything else
/// is dropped.
#[verifier::external_body]
fn convert_node(xot: &xot::Xot, node: xot::Node) -> (r: Option<XmlNode>) {
    match xot.value(node) {
        xot::Value::Element(el) => Some(XmlNode::Element(XmlElement {
            name: local_name_of(xot, el.name()),
            attrs: convert_attrs(xot, node),
            children: xot.children(node).filter_map(|c| convert_node(xot, c)).collect(),
        })),
        xot::Value::Text(t) => Some(XmlNode::Text(t.get().to_string())),
        _ => None,
    }
}

/// Relies on xot's attribute map (`Xot::attributes`): every attribute of the
/// node as its local name and value, in document order.
#[verifier::external_body]
fn convert_attrs(xot: &xot::Xot, node: xot::Node) -> (r: Vec<XmlAttr>) {
    xot.attributes(node)
        .to_vec()
        .into_iter()
        .map(|(k, v)| XmlAttr { name: local_name_of(xot, k), value: v })
        .collect()
}

/// Relies on `xot::Xot::local_name_str`: the local part of a name, without
/// its namespace.
#[verifier::external_body]
fn local_name_of(xot: &xot::Xot, name: xot::NameId) -> (r: String) {
    xot.local_name_str(name).to_string()
}

} // verus!

verus! {

impl XmlElement {
    /// The first value bound to an attribute of this local name.
    pub open spec fn attr_spec(self, name: Seq<char>) -> Option<Seq<char>> {
        attr_lookup_spec(self.attrs@, name)
    }
}

/// The value of the first attribute in `attrs` whose local name is `name`.
pub open spec fn attr_lookup_spec(attrs: Seq<XmlAttr>, name: Seq<char>) -> Option<Seq<char>>
    decreases attrs.len(),
{
    if attrs.len() == 0 {
        None
    } else if attrs[0].name@ == name {
        Some(attrs[0].value@)
    } else {
        attr_lookup_spec(attrs.skip(1), name)
    }
}

/// Look up an attribute of `e` by local name.
pub fn attr_of<'a>(e: &'a XmlElement, name: &str) -> (r: Option<&'a String>)
    ensures
        match r {
            Some(v) => e.attr_spec(name@) == Some(v@),
            None => e.attr_spec(name@) is None,
        },
{
    let n: usize = e.attrs.len();
    let mut i: usize = 0;
    proof {
        assert(e.attrs@.skip(0) =~= e.attrs@);
    }
    while i < n
        invariant
            i <= n,
            n == e.attrs@.len(),
            attr_lookup_spec(e.attrs@, name@) == attr_lookup_spec(e.attrs@.skip(i as int), name@),
        decreases n - i,
    {
        proof {
            assert(e.attrs@.skip(i as int)[0] == e.attrs@[i as int]);
            assert(e.attrs@.skip(i as int).skip(1) =~= e.attrs@.skip(i + 1));
        }
        if crate::strutil::str_eq(e.attrs[i].name.as_str(), name) {
            return Some(&e.attrs[i].value);
        }
        i = i + 1;
    }
    proof {
        assert(e.attrs@.skip(n as int) =~= Seq::<XmlAttr>::empty());
    }
    None
}

/// The concatenated text of a node: its own text, or all of its descendant
/// text in document order, as the XPath string value of an element.
pub open spec fn text_of_node(n: XmlNode) -> Seq<char>
    decreases n,
{
    match n {
        XmlNode::Text(s) => s@,
        XmlNode::Element(e) => text_of_list(e.children@),
    }
}

/// The concatenated text of a list of nodes.
pub open spec fn text_of_list(cs: Seq<XmlNode>) -> Seq<char>
    decreases cs,
{
    if cs.len() == 0 {
        Seq::empty()
    } else {
        text_of_node(cs[0]) + text_of_list(cs.skip(1))
    }
}

/// The string value of an element: its descendant text, concatenated.
#[verifier::loop_isolation(false)]
pub fn element_text(e: &XmlElement) -> (r: String)
    ensures
        r@ == text_of_list(e.children@),
{
    let mut out = String::new();
    let n: usize = e.children.len();
    let mut i: usize = 0;
    proof {
        assert(e.children@.skip(0) =~= e.children@);
    }
    while i < n
        invariant
            i <= n,
            text_of_list(e.children@) == out@ + text_of_list(e.children@.skip(i as int)),
        decreases n - i,
    {
        proof {
            assert(e.children@.skip(i as int)[0] == e.children@[i as int]);
            assert(e.children@.skip(i as int).skip(1) =~= e.children@.skip(i + 1));
        }
        let piece = node_text(&e.children[i]);
        out.append(piece.as_str());
        i = i + 1;
    }
    proof {
        assert(e.children@.skip(n as int) =~= Seq::<XmlNode>::empty());
        assert(out@ =~= text_of_list(e.children@));
    }
    out
}

/// The string value of one node.
#[verifier::loop_isolation(false)]
pub fn node_text(n: &XmlNode) -> (r: String)
    ensures
        r@ == text_of_node(*n),
    decreases *n,
{
    match n {
        XmlNode::Text(s) => s.clone(),
        XmlNode::Element(e) => {
            let mut out = String::new();
            let m: usize = e.children.len();
            let mut i: usize = 0;
            proof {
                assert(e.children@.skip(0) =~= e.children@);
            }
            while i < m
                invariant
                    i <= m,
                    text_of_list(e.children@) == out@ + text_of_list(e.children@.skip(i as int)),
                decreases m - i,
            {
                proof {
                    assert(e.children@.skip(i as int)[0] == e.children@[i as int]);
                    assert(e.children@.skip(i as int).skip(1) =~= e.children@.skip(i + 1));
                }
                let piece = node_text(&e.children[i]);
                out.append(piece.as_str());
                i = i + 1;
            }
            proof {
                assert(e.children@.skip(m as int) =~= Seq::<XmlNode>::empty());
                assert(out@ =~= text_of_list(e.children@));
            }
            out
        },
    }
}

/// The child elements of `e` whose local name is `name`, in order, up to
/// child index `i`.
pub open spec fn named_children_upto(cs: Seq<XmlNode>, name: Seq<char>, i: int) -> Seq<XmlElement>
    decreases i,
{
    if i <= 0 {
        Seq::empty()
    } else {
        named_children_upto(cs, name, i - 1) + match cs[i - 1] {
            XmlNode::Element(e) => if e.name@ == name {
                seq![e]
            } else {
                Seq::empty()
            },
            XmlNode::Text(_) => Seq::empty(),
        }
    }
}

/// All child elements of `e` with this local name.
pub open spec fn named_children_spec(e: XmlElement, name: Seq<char>) -> Seq<XmlElement> {
    named_children_upto(e.children@, name, e.children@.len() as int)
}

/// The child elements of `e` with this local name, in document order.
pub fn named_children<'a>(e: &'a XmlElement, name: &str) -> (r: Vec<&'a XmlElement>)
    ensures
        r@.len() == named_children_spec(*e, name@).len(),
        forall|k: int|
            0 <= k < r@.len() ==> *r@[k] == named_children_spec(*e, name@)[k],
{
    let n: usize = e.children.len();
    let mut r: Vec<&'a XmlElement> = Vec::new();
    let mut i: usize = 0;
    while i < n
        invariant
            i <= n,
            n == e.children@.len(),
            r@.len() == named_children_upto(e.children@, name@, i as int).len(),
            forall|k: int|
                0 <= k < r@.len() ==> *r@[k] == named_children_upto(
                    e.children@,
                    name@,
                    i as int,
                )[k],
        decreases n - i,
    {
        match &e.children[i] {
            XmlNode::Element(c) => {
                if crate::strutil::str_eq(c.name.as_str(), name) {
                    r.push(c);
                }
            },
            XmlNode::Text(_) => {},
        }
        i = i + 1;
    }
    r
}

/// The first child element of `e` with this local name, if any.
pub fn first_named_child<'a>(e: &'a XmlElement, name: &str) -> (r: Option<&'a XmlElement>)
    ensures
        match r {
            Some(c) => named_children_spec(*e, name@).len() > 0 && *c == named_children_spec(
                *e,
                name@,
            )[0],
            None => named_children_spec(*e, name@).len() == 0,
        },
{
    let n: usize = e.children.len();
    let mut i: usize = 0;
    while i < n
        invariant
            i <= n,
            n == e.children@.len(),
            named_children_upto(e.children@, name@, i as int).len() == 0,
        decreases n - i,
    {
        match &e.children[i] {
            XmlNode::Element(c) => {
                if crate::strutil::str_eq(c.name.as_str(), name) {
                    proof {
                        lemma_named_children_prefix(e.children@, name@, i + 1, n as int);
                    }
                    return Some(c);
                }
            },
            XmlNode::Text(_) => {},
        }
        i = i + 1;
    }
    None
}

/// A prefix of the named-children list stays a prefix as the bound grows.
proof fn lemma_named_children_prefix(cs: Seq<XmlNode>, name: Seq<char>, i: int, j: int)
    requires
        0 < i <= j <= cs.len(),
        named_children_upto(cs, name, i).len() > 0,
    ensures
        named_children_upto(cs, name, j).len() > 0,
        named_children_upto(cs, name, j)[0] == named_children_upto(cs, name, i)[0],
    decreases j - i,
{
    if i < j {
        lemma_named_children_prefix(cs, name, i, j - 1);
    }
}

/// All descendant elements of `n` with this local name, in document order,
/// the node itself included.
pub open spec fn descendants_spec(n: XmlNode, name: Seq<char>) -> Seq<XmlElement>
    decreases n,
{
    match n {
        XmlNode::Text(_) => Seq::empty(),
        XmlNode::Element(e) => (if e.name@ == name {
            seq![e]
        } else {
            Seq::empty()
        }) + descendants_in_list(e.children@, name),
    }
}

/// All descendant elements in a list of nodes with this local name.
pub open spec fn descendants_in_list(cs: Seq<XmlNode>, name: Seq<char>) -> Seq<XmlElement>
    decreases cs,
{
    if cs.len() == 0 {
        Seq::empty()
    } else {
        descendants_spec(cs[0], name) + descendants_in_list(cs.skip(1), name)
    }
}

/// Collect every descendant element of `n` with this local name, in document
/// order, `n` itself included.
#[verifier::loop_isolation(false)]
pub fn descendants_named<'a>(n: &'a XmlNode, name: &str) -> (r: Vec<&'a XmlElement>)
    ensures
        r@.len() == descendants_spec(*n, name@).len(),
        forall|k: int| 0 <= k < r@.len() ==> *r@[k] == descendants_spec(*n, name@)[k],
    decreases *n,
{
    let mut r: Vec<&'a XmlElement> = Vec::new();
    match n {
        XmlNode::Text(_) => r,
        XmlNode::Element(e) => {
            if crate::strutil::str_eq(e.name.as_str(), name) {
                r.push(e);
            }
            let m: usize = e.children.len();
            let mut i: usize = 0;
            proof {
                assert(e.children@.skip(0) =~= e.children@);
                assert(descendants_in_list(e.children@.skip(m as int), name@).len() == 0);
            }
            while i < m
                invariant
                    i <= m,
                    descendants_spec(*n, name@) =~= seqs_of(r@) + descendants_in_list(
                        e.children@.skip(i as int),
                        name@,
                    ),
                decreases m - i,
            {
                proof {
                    assert(e.children@.skip(i as int)[0] == e.children@[i as int]);
                    assert(e.children@.skip(i as int).skip(1) =~= e.children@.skip(i + 1));
                }
                let mut sub = descendants_named(&e.children[i], name);
                proof {
                    assert(seqs_of(r@ + sub@) =~= seqs_of(r@) + seqs_of(sub@));
                }
                r.append(&mut sub);
                i = i + 1;
            }
            proof {
                assert(e.children@.skip(m as int) =~= Seq::<XmlNode>::empty());
                assert(descendants_spec(*n, name@) =~= seqs_of(r@));
                assert(forall|k: int|
                    0 <= k < r@.len() ==> *r@[k] == #[trigger] seqs_of(r@)[k]);
            }
            r
        },
    }
}

/// The elements a vector of references points at, as one sequence of values.
pub open spec fn seqs_of(v: Seq<&XmlElement>) -> Seq<XmlElement> {
    v.map_values(|x: &XmlElement| *x)
}

/// All descendant elements of `e` with this local name, searching `e` itself
/// and its whole subtree.
pub fn element_descendants<'a>(e: &'a XmlElement, name: &str) -> (r: Vec<&'a XmlElement>)
    ensures
        r@.len() == element_descendants_spec(*e, name@).len(),
        forall|k: int| 0 <= k < r@.len() ==> *r@[k] == element_descendants_spec(*e, name@)[k],
{
    let mut r: Vec<&'a XmlElement> = Vec::new();
    if crate::strutil::str_eq(e.name.as_str(), name) {
        r.push(e);
    }
    let m: usize = e.children.len();
    let mut i: usize = 0;
    proof {
        assert(e.children@.skip(0) =~= e.children@);
    }
    while i < m
        invariant
            i <= m,
            m == e.children@.len(),
            element_descendants_spec(*e, name@) =~= seqs_of(r@) + descendants_in_list(
                e.children@.skip(i as int),
                name@,
            ),
        decreases m - i,
    {
        proof {
            assert(e.children@.skip(i as int)[0] == e.children@[i as int]);
            assert(e.children@.skip(i as int).skip(1) =~= e.children@.skip(i + 1));
        }
        let mut sub = descendants_named(&e.children[i], name);
        proof {
            assert(seqs_of(r@ + sub@) =~= seqs_of(r@) + seqs_of(sub@));
        }
        r.append(&mut sub);
        i = i + 1;
    }
    proof {
        assert(e.children@.skip(m as int) =~= Seq::<XmlNode>::empty());
        assert(element_descendants_spec(*e, name@) =~= seqs_of(r@));
        assert(forall|k: int| 0 <= k < r@.len() ==> *r@[k] == #[trigger] seqs_of(r@)[k]);
    }
    r
}

/// The descendants of an element itself: the element where it matches, then
/// everything below it.
pub open spec fn element_descendants_spec(e: XmlElement, name: Seq<char>) -> Seq<XmlElement> {
    (if e.name@ == name {
        seq![e]
    } else {
        Seq::empty()
    }) + descendants_in_list(e.children@, name)
}

} // verus!

verus! {

/// The trimmed value of an attribute; a missing attribute reads as empty,
/// as the XPath `string()` of an absent node does.
pub open spec fn attr_trim(e: XmlElement, name: Seq<char>) -> Seq<char> {
    match attr_lookup_spec(e.attrs@, name) {
        Some(v) => crate::strutil::trim_spec(v),
        None => Seq::empty(),
    }
}

/// The trimmed value of the attribute `name` of `e`, or the empty string.
pub fn attr_trimmed(e: &XmlElement, name: &str) -> (r: String)
    ensures
        r@ == attr_trim(*e, name@),
{
    match attr_of(e, name) {
        Some(v) => crate::strutil::trim(v.as_str()),
        None => String::new(),
    }
}

/// The trimmed string value of an element.
pub open spec fn text_trim(e: XmlElement) -> Seq<char> {
    crate::strutil::trim_spec(text_of_list(e.children@))
}

/// The trimmed string value of `e`.
pub fn text_trimmed(e: &XmlElement) -> (r: String)
    ensures
        r@ == text_trim(*e),
{
    let t = element_text(e);
    crate::strutil::trim(t.as_str())
}

/// The first child element with this local name, as a value.
pub open spec fn first_named(e: XmlElement, name: Seq<char>) -> Option<XmlElement> {
    if named_children_spec(e, name).len() > 0 {
        Some(named_children_spec(e, name)[0])
    } else {
        None
    }
}

} // verus!
