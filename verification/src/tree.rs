//! The document tree that the transform works on.
//!
//! A document is an ownership tree of nodes: a document root, elements with a
//! qualified name, attributes and ordered children, text nodes, and the node
//! kinds that the transform passes through untouched (doctypes, comments,
//! processing instructions). Text is held as a vector of characters.

use vstd::prelude::*;

verus! {

/// A qualified name: optional namespace prefix, namespace url, local name.
#[derive(PartialEq, Debug)]
pub struct QName {
    pub prefix: Option<Vec<char>>,
    pub ns: Vec<char>,
    pub local: Vec<char>,
}

/// One attribute of an element.
#[derive(PartialEq, Debug)]
pub struct Attr {
    pub name: QName,
    pub value: Vec<char>,
}

/// A node of the document tree.
#[derive(PartialEq, Debug)]
pub enum Node {
    Document { children: Vec<Node> },
    Doctype { name: Vec<char>, public_id: Vec<char>, system_id: Vec<char> },
    Text { contents: Vec<char> },
    Comment { contents: Vec<char> },
    Element {
        name: QName,
        attrs: Vec<Attr>,
        /// Contents of an HTML `template` element; never traversed.
        template: Option<Box<Node>>,
        /// Whether the element is a MathML annotation-xml integration point.
        mathml: bool,
        children: Vec<Node>,
    },
    Pi { target: Vec<char>, contents: Vec<char> },
}

/// Mathematical model of a qualified name.
#[verifier::ext_equal]
pub struct QNameV {
    pub prefix: Option<Seq<char>>,
    pub ns: Seq<char>,
    pub local: Seq<char>,
}

/// Mathematical model of an attribute.
#[verifier::ext_equal]
pub struct AttrV {
    pub name: QNameV,
    pub value: Seq<char>,
}

/// Mathematical model of a node.
#[verifier::ext_equal]
pub enum NodeV {
    Document { children: Seq<NodeV> },
    Doctype { name: Seq<char>, public_id: Seq<char>, system_id: Seq<char> },
    Text { contents: Seq<char> },
    Comment { contents: Seq<char> },
    Element {
        name: QNameV,
        attrs: Seq<AttrV>,
        template: Option<Box<NodeV>>,
        mathml: bool,
        children: Seq<NodeV>,
    },
    Pi { target: Seq<char>, contents: Seq<char> },
}

impl View for QName {
    type V = QNameV;

    open spec fn view(&self) -> QNameV {
        QNameV {
            prefix: match self.prefix {
                Option::Some(p) => Option::Some(p@),
                Option::None => Option::None,
            },
            ns: self.ns@,
            local: self.local@,
        }
    }
}

impl View for Attr {
    type V = AttrV;

    open spec fn view(&self) -> AttrV {
        AttrV { name: self.name@, value: self.value@ }
    }
}

/// The views of the nodes `s[i..]`, oldest first.
pub open spec fn node_views_from(s: Seq<Node>, i: int) -> Seq<NodeV>
    decreases s, s.len() - i, 0int,
{
    if i < 0 || i >= s.len() {
        Seq::<NodeV>::empty()
    } else {
        seq![node_view(s[i])] + node_views_from(s, i + 1)
    }
}

/// The view of one node.
pub open spec fn node_view(n: Node) -> NodeV
    decreases n, 0int, 1int,
{
    match n {
        Node::Document { children } => NodeV::Document {
            children: node_views_from(children@, 0),
        },
        Node::Doctype { name, public_id, system_id } => NodeV::Doctype {
            name: name@,
            public_id: public_id@,
            system_id: system_id@,
        },
        Node::Text { contents } => NodeV::Text { contents: contents@ },
        Node::Comment { contents } => NodeV::Comment { contents: contents@ },
        Node::Element { name, attrs, template, mathml, children } => NodeV::Element {
            name: name@,
            attrs: Seq::new(attrs@.len(), |i: int| attrs@[i]@),
            template: match template {
                Option::Some(t) => Option::Some(Box::new(node_view(*t))),
                Option::None => Option::None,
            },
            mathml,
            children: node_views_from(children@, 0),
        },
        Node::Pi { target, contents } => NodeV::Pi { target: target@, contents: contents@ },
    }
}

impl View for Node {
    type V = NodeV;

    open spec fn view(&self) -> NodeV {
        node_view(*self)
    }
}

/// `node_views_from` is pointwise `node_view`, with the same length.
pub proof fn lemma_node_views_from(s: Seq<Node>, i: int)
    requires
        0 <= i <= s.len(),
    ensures
        node_views_from(s, i).len() == s.len() - i,
        forall|k: int|
            i <= k < s.len() ==> node_views_from(s, i)[k - i] == node_view(#[trigger] s[k]),
    decreases s.len() - i,
{
    if i < s.len() {
        lemma_node_views_from(s, i + 1);
    }
}

/// The ordered children of a node; empty for the node kinds that have none.
pub open spec fn children_of(n: NodeV) -> Seq<NodeV> {
    match n {
        NodeV::Document { children } => children,
        NodeV::Element { children, .. } => children,
        _ => Seq::empty(),
    }
}

/// Does this attribute mark an element as an inline source block
/// (no prefix, local name `type`, value `rust`)?
pub open spec fn attr_is_type_rust(a: AttrV) -> bool {
    &&& a.name.prefix is None
    &&& a.name.local == "type"@
    &&& a.value == "rust"@
}

/// A qualifying element: local name exactly `script` with no namespace
/// prefix, an attribute `type` with value exactly `rust`, and a text node as
/// its first child.
pub open spec fn spec_qualifying(n: NodeV) -> bool {
    match n {
        NodeV::Element { name, attrs, children, .. } => {
            &&& name.prefix is None
            &&& name.local == "script"@
            &&& exists|i: int|
                0 <= i < attrs.len() && attr_is_type_rust(#[trigger] attrs[i])
            &&& children.len() > 0
            &&& children[0] is Text
        },
        _ => false,
    }
}

/// The text content of a qualifying element: its first child's contents.
pub open spec fn spec_text_of(n: NodeV) -> Seq<char> {
    match children_of(n)[0] {
        NodeV::Text { contents } => contents,
        _ => Seq::empty(),
    }
}

/// Compares two character vectors.
pub fn chars_eq(a: &Vec<char>, b: &Vec<char>) -> (r: bool)
    ensures
        r == (a@ == b@),
{
    if a.len() != b.len() {
        return false;
    }
    let mut i: usize = 0;
    while i < a.len()
        invariant
            0 <= i <= a.len(),
            a@.len() == b@.len(),
            forall|j: int| 0 <= j < i ==> a@[j] == b@[j],
        decreases a.len() - i,
    {
        if a[i] != b[i] {
            return false;
        }
        i += 1;
    }
    proof {
        assert(a@ =~= b@);
    }
    true
}

/// Decides the qualifying-element predicate for a node.
pub fn is_qualifying(n: &Node) -> (r: bool)
    ensures
        r == spec_qualifying(n@),
{
    match n {
        Node::Element { name, attrs, children, .. } => {
            let ghost av = Seq::new(attrs@.len(), |i: int| attrs@[i]@);
            let ghost cv = node_views_from(children@, 0);
            proof {
                lemma_node_views_from(children@, 0);
                assert(n@ == NodeV::Element {
                    name: name@,
                    attrs: av,
                    template: n@->Element_template,
                    mathml: n@->Element_mathml,
                    children: cv,
                });
            }
            if name.prefix.is_some() {
                return false;
            }
            let script = crate::text::lit_chars("script");
            if !chars_eq(&name.local, &script) {
                return false;
            }
            let ty = crate::text::lit_chars("type");
            let rust = crate::text::lit_chars("rust");
            let mut found = false;
            let mut i: usize = 0;
            while i < attrs.len()
                invariant
                    0 <= i <= attrs.len(),
                    ty@ == "type"@,
                    rust@ == "rust"@,
                    av == Seq::new(attrs@.len(), |i: int| attrs@[i]@),
                    found == exists|j: int| 0 <= j < i && attr_is_type_rust(#[trigger] av[j]),
                decreases attrs.len() - i,
            {
                let a = &attrs[i];
                if a.name.prefix.is_none() && chars_eq(&a.name.local, &ty) && chars_eq(
                    &a.value,
                    &rust,
                ) {
                    proof {
                        assert(av[i as int] == attrs@[i as int]@);
                        assert(attr_is_type_rust(av[i as int]));
                    }
                    found = true;
                }
                i += 1;
            }
            if !found {
                return false;
            }
            if children.len() == 0 {
                return false;
            }
            proof {
                assert(cv[0] == node_view(children@[0]));
            }
            let c0 = &children[0];
            let first_is_text = match c0 {
                Node::Text { .. } => true,
                _ => false,
            };
            proof {
                assert(*c0 == children@[0]);
                assert(first_is_text == c0 matches Node::Text { .. });
                assert(node_view(*c0) is Text <==> *c0 matches Node::Text { .. });
                assert(first_is_text ==> cv[0] is Text);
                assert(n@ is Element);
                assert(n@->Element_name.prefix is None);
                assert(n@->Element_name.local == "script"@);
                let j0 = choose|j: int| 0 <= j < av.len() && attr_is_type_rust(#[trigger] av[j]);
                assert(attr_is_type_rust(n@->Element_attrs[j0]));
                assert(exists|i: int|
                    0 <= i < n@->Element_attrs.len() && attr_is_type_rust(
                        #[trigger] n@->Element_attrs[i],
                    ));
                assert(n@->Element_children.len() > 0);
                assert(first_is_text ==> spec_qualifying(n@));
            }
            first_is_text
        },
        _ => false,
    }
}

} // verus!
