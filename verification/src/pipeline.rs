//! The document transform.
//!
//! A single pass walks the tree depth-first. At every node its children are
//! examined left to right: a qualifying element whose text yields a
//! manifest fragment (markers present) that parses is extracted — it
//! becomes a unit, and the element is replaced, at the same child slot, by
//! a loader element for the unit's artifact; every other child is descended
//! into and otherwise left as it stands. Unit identifiers count confirmed
//! extractions only, from zero, in traversal order; an element that merely
//! looks like an inline source block but yields no unit consumes no
//! identifier.

use vstd::prelude::*;

use crate::bootstrap::{hoist_text, spec_hoist};
use crate::extract::{extract_parts, spec_extract};
use crate::manifest::{
    manifest_lib_types, manifest_package, manifest_parses, parse_and_synthesize,
};
use crate::text::{lit_chars, sub_chars};
use crate::tree::{
    is_qualifying, lemma_node_views_from, node_view, node_views_from, spec_qualifying,
    spec_text_of, Attr, AttrV, Node, NodeV, QName, QNameV,
};

verus! {

/// One extraction unit: its identifier, its completed project descriptor,
/// and its body region, the source text of the unit.
pub struct Unit {
    pub id: u64,
    pub manifest: cargo_toml::Manifest<toml::Value>,
    pub body: Vec<char>,
}

/// The ghost record of one extraction: identifier, manifest source text,
/// body text.
pub struct GUnit {
    pub id: int,
    pub fragment: Seq<char>,
    pub body: Seq<char>,
}

/// What one extraction attempt on an element's text yields: the manifest
/// source text and the body, or nothing if a marker is missing or the
/// fragment does not parse.
pub open spec fn spec_attempt(t: Seq<char>) -> Option<(Seq<char>, Seq<char>)> {
    match spec_extract(t) {
        Option::None => Option::None,
        Option::Some(p) => if manifest_parses(p.0) {
            Option::Some(p)
        } else {
            Option::None
        },
    }
}

/// The replacement element for unit `id`: a `script` element in the XHTML
/// namespace with the single attribute `type="module"` and the unit's
/// loader text as its single child.
pub open spec fn spec_replacement(id: int) -> NodeV {
    NodeV::Element {
        name: QNameV {
            prefix: Option::None,
            ns: "http://www.w3.org/1999/xhtml"@,
            local: "script"@,
        },
        attrs: seq![
            AttrV {
                name: QNameV { prefix: Option::None, ns: ""@, local: "type"@ },
                value: "module"@,
            },
        ],
        template: Option::None,
        mathml: false,
        children: seq![NodeV::Text { contents: spec_hoist(id) }],
    }
}

/// The transform of a whole node: its children are transformed in place;
/// node kinds without children are left as they stand.
pub open spec fn spec_transform(n: NodeV, next: int) -> (NodeV, Seq<GUnit>, int)
    decreases n, 0int, 0int,
{
    match n {
        NodeV::Document { children } => {
            let t = spec_transform_from(children, 0, next);
            (NodeV::Document { children: t.0 }, t.1, t.2)
        },
        NodeV::Element { name, attrs, template, mathml, children } => {
            let t = spec_transform_from(children, 0, next);
            (NodeV::Element { name, attrs, template, mathml, children: t.0 }, t.1, t.2)
        },
        _ => (n, Seq::<GUnit>::empty(), next),
    }
}

/// The transform of the child slots `cs[i..]`, left to right.
pub open spec fn spec_transform_from(cs: Seq<NodeV>, i: int, next: int) -> (
    Seq<NodeV>,
    Seq<GUnit>,
    int,
)
    decreases cs, cs.len() - i, 2int,
{
    if i < 0 || i >= cs.len() {
        (Seq::<NodeV>::empty(), Seq::<GUnit>::empty(), next)
    } else {
        let h = spec_transform_child(cs[i], next);
        let t = spec_transform_from(cs, i + 1, h.2);
        (seq![h.0] + t.0, h.1 + t.1, t.2)
    }
}

/// The transform of one child slot: a qualifying element with a successful
/// extraction is replaced by the loader element and consumes the next
/// identifier; everything else is descended into.
pub open spec fn spec_transform_child(c: NodeV, next: int) -> (NodeV, Seq<GUnit>, int)
    decreases c, 0int, 1int,
{
    if spec_qualifying(c) {
        match spec_attempt(spec_text_of(c)) {
            Option::Some(p) => (
                spec_replacement(next),
                seq![GUnit { id: next, fragment: p.0, body: p.1 }],
                next + 1,
            ),
            Option::None => spec_transform(c, next),
        }
    } else {
        spec_transform(c, next)
    }
}

/// An executable unit realizes a ghost extraction record: same identifier,
/// same body, a fragment that parses, and a completed descriptor.
pub open spec fn unit_matches(u: Unit, g: GUnit) -> bool {
    &&& u.id as int == g.id
    &&& u.body@ == g.body
    &&& manifest_parses(g.fragment)
    &&& manifest_lib_types(u.manifest) is Some
    &&& manifest_lib_types(u.manifest)->Some_0.contains("cdylib"@)
    &&& manifest_package(u.manifest) is Some
}

/// Pointwise `unit_matches`.
pub open spec fn units_match(xs: Seq<Unit>, gs: Seq<GUnit>) -> bool {
    xs.len() == gs.len() && forall|k: int| 0 <= k < gs.len() ==> unit_matches(xs[k], gs[k])
}

proof fn lemma_units_match_concat(x1: Seq<Unit>, g1: Seq<GUnit>, x2: Seq<Unit>, g2: Seq<GUnit>)
    requires
        units_match(x1, g1),
        units_match(x2, g2),
    ensures
        units_match(x1 + x2, g1 + g2),
{
    assert forall|k: int| 0 <= k < (g1 + g2).len() implies unit_matches(
        (x1 + x2)[k],
        (g1 + g2)[k],
    ) by {
        if k < g1.len() {
            assert((x1 + x2)[k] == x1[k]);
        } else {
            assert((x1 + x2)[k] == x2[k - g1.len()]);
        }
    }
}

/// The copy of a qualified name.
pub fn clone_qname(q: &QName) -> (r: QName)
    ensures
        r@ == q@,
{
    let prefix = match &q.prefix {
        Option::Some(p) => Option::Some(sub_chars(p, 0, p.len())),
        Option::None => Option::None,
    };
    let r = QName {
        prefix,
        ns: sub_chars(&q.ns, 0, q.ns.len()),
        local: sub_chars(&q.local, 0, q.local.len()),
    };
    proof {
        assert(r@.ns =~= q@.ns);
        assert(r@.local =~= q@.local);
        if q.prefix is Some {
            assert(r@.prefix->0 =~= q@.prefix->0);
        }
        assert(r@ =~= q@);
    }
    r
}

/// The copy of an attribute list.
pub fn clone_attrs(attrs: &Vec<Attr>) -> (r: Vec<Attr>)
    ensures
        r@.len() == attrs@.len(),
        forall|k: int| 0 <= k < attrs@.len() ==> r@[k]@ == attrs@[k]@,
{
    let mut r: Vec<Attr> = Vec::new();
    let mut i: usize = 0;
    while i < attrs.len()
        invariant
            0 <= i <= attrs@.len(),
            r@.len() == i,
            forall|k: int| 0 <= k < i ==> r@[k]@ == attrs@[k]@,
        decreases attrs@.len() - i,
    {
        let a = &attrs[i];
        let c = Attr { name: clone_qname(&a.name), value: sub_chars(&a.value, 0, a.value.len()) };
        proof {
            assert(c@ =~= a@);
        }
        r.push(c);
        i += 1;
    }
    r
}

/// The deep copy of a node.
pub fn clone_node(n: &Node) -> (r: Node)
    ensures
        r@ == n@,
    decreases *n, 0int, 1int,
{
    let r = match n {
        Node::Document { children } => Node::Document { children: clone_children(children, 0) },
        Node::Doctype { name, public_id, system_id } => Node::Doctype {
            name: sub_chars(name, 0, name.len()),
            public_id: sub_chars(public_id, 0, public_id.len()),
            system_id: sub_chars(system_id, 0, system_id.len()),
        },
        Node::Text { contents } => Node::Text { contents: sub_chars(contents, 0, contents.len()) },
        Node::Comment { contents } => Node::Comment {
            contents: sub_chars(contents, 0, contents.len()),
        },
        Node::Element { name, attrs, template, mathml, children } => Node::Element {
            name: clone_qname(name),
            attrs: clone_attrs(attrs),
            template: match template {
                Option::Some(t) => Option::Some(Box::new(clone_node(&**t))),
                Option::None => Option::None,
            },
            mathml: *mathml,
            children: clone_children(children, 0),
        },
        Node::Pi { target, contents } => Node::Pi {
            target: sub_chars(target, 0, target.len()),
            contents: sub_chars(contents, 0, contents.len()),
        },
    };
    proof {
        assert(r@ =~~= n@) by {
            match n {
                Node::Document { children } => {
                    assert forall|k: int|
                        0 <= k < children@.len() implies r->Document_children@[k]@
                        == #[trigger] children@[k]@ by {
                        assert(r->Document_children@[k]@ == children@[0 + k]@);
                    }
                    lemma_clone_views(children@, r->Document_children@);
                },
                Node::Element { name, attrs, template, mathml, children } => {
                    assert forall|k: int|
                        0 <= k < children@.len() implies r->Element_children@[k]@
                        == #[trigger] children@[k]@ by {
                        assert(r->Element_children@[k]@ == children@[0 + k]@);
                    }
                    lemma_clone_views(children@, r->Element_children@);
                    assert(Seq::new(r->Element_attrs@.len(), |i: int| r->Element_attrs@[i]@)
                        =~= Seq::new(attrs@.len(), |i: int| attrs@[i]@));
                },
                _ => {},
            }
        }
    }
    r
}

/// Two node lists whose members' views agree pointwise have the same view
/// sequences.
proof fn lemma_clone_views(a: Seq<Node>, b: Seq<Node>)
    requires
        a.len() == b.len(),
        forall|k: int| 0 <= k < a.len() ==> b[k]@ == #[trigger] a[k]@,
    ensures
        node_views_from(b, 0) == node_views_from(a, 0),
{
    lemma_node_views_from(a, 0);
    lemma_node_views_from(b, 0);
    assert forall|k: int| 0 <= k < a.len() implies node_views_from(b, 0)[k] == node_views_from(
        a,
        0,
    )[k] by {
        assert(b[k]@ == a[k]@);
        assert(a[k]@ == node_view(a[k]) && b[k]@ == node_view(b[k]));
        assert(node_views_from(a, 0)[k] == node_view(a[k]));
        assert(node_views_from(b, 0)[k] == node_view(b[k]));
    }
    assert(node_views_from(b, 0) =~= node_views_from(a, 0));
}

/// The copies of the nodes `cs[i..]`.
pub fn clone_children(cs: &Vec<Node>, i: usize) -> (r: Vec<Node>)
    requires
        i <= cs@.len(),
    ensures
        r@.len() == cs@.len() - i,
        forall|k: int| 0 <= k < r@.len() ==> r@[k]@ == #[trigger] cs@[i + k]@,
    decreases cs@, cs@.len() - i, 0int,
{
    if i == cs.len() {
        Vec::new()
    } else {
        let h = clone_node(&cs[i]);
        let mut rest = clone_children(cs, i + 1);
        let mut r: Vec<Node> = Vec::new();
        r.push(h);
        r.append(&mut rest);
        proof {
            assert forall|k: int| 0 <= k < r@.len() implies r@[k]@ == #[trigger] cs@[i + k]@ by {
                if k == 0 {
                    assert(r@[0]@ == cs@[i as int]@);
                } else {
                    assert(r@[k]@ == cs@[(i + 1) + (k - 1)]@);
                }
            }
        }
        r
    }
}

/// The text content of a qualifying element.
fn text_of(c: &Node) -> (t: Vec<char>)
    requires
        spec_qualifying(c@),
    ensures
        t@ == spec_text_of(c@),
{
    match c {
        Node::Element { children, .. } => {
            proof {
                lemma_node_views_from(children@, 0);
            }
            match &children[0] {
                Node::Text { contents } => sub_chars(contents, 0, contents.len()),
                _ => {
                    proof {
                        assert(false);
                    }
                    vstd::pervasive::unreached()
                },
            }
        },
        _ => {
            proof {
                assert(false);
            }
            vstd::pervasive::unreached()
        },
    }
}

/// Builds the replacement element for unit `id`.
pub fn make_replacement(id: u64) -> (r: Node)
    ensures
        r@ == spec_replacement(id as int),
{
    let hoist = hoist_text(id);
    let mut children: Vec<Node> = Vec::new();
    children.push(Node::Text { contents: hoist });
    let mut attrs: Vec<Attr> = Vec::new();
    attrs.push(
        Attr {
            name: QName { prefix: Option::None, ns: Vec::new(), local: lit_chars("type") },
            value: lit_chars("module"),
        },
    );
    let name = QName {
        prefix: Option::None,
        ns: lit_chars("http://www.w3.org/1999/xhtml"),
        local: lit_chars("script"),
    };
    let r = Node::Element { name, attrs, template: Option::None, mathml: false, children };
    proof {
        reveal_strlit("");
        let rv = spec_replacement(id as int);
        lemma_node_views_from(r->Element_children@, 0);
        assert(node_views_from(r->Element_children@, 0) =~= rv->Element_children);
        assert(Seq::new(r->Element_attrs@.len(), |i: int| r->Element_attrs@[i]@)
            =~= rv->Element_attrs) by {
            assert(r->Element_attrs@[0]@.value =~= "module"@);
            assert(r->Element_attrs@[0]@.name.ns =~= ""@);
        }
        assert(r@ =~~= rv);
    }
    r
}

/// Transforms one node: every child slot of every descendant is examined,
/// and the extraction units found are appended to `units` in traversal
/// order, each identified by its position in `units`.
pub fn transform_node(n: &Node, units: &mut Vec<Unit>) -> (r: Node)
    ensures
        ({
            let t = spec_transform(n@, old(units)@.len() as int);
            &&& r@ == t.0
            &&& old(units)@.len() <= final(units)@.len()
            &&& forall|k: int| 0 <= k < old(units)@.len() ==> final(units)@[k] == old(units)@[k]
            &&& units_match(final(units)@.skip(old(units)@.len() as int), t.1)
            &&& t.2 == final(units)@.len() as int
        }),
    decreases *n, 0int, 2int,
{
    let ghost a = units@.len() as int;
    match n {
        Node::Document { children } => {
            let new_children = transform_from(children, 0, units);
            let r = Node::Document { children: new_children };
            proof {
                let t = spec_transform(n@, a);
                lemma_node_views_from(r->Document_children@, 0);
                assert(node_views_from(r->Document_children@, 0) =~= t.0->Document_children);
                assert(r@ =~~= t.0);
            }
            r
        },
        Node::Element { name, attrs, template, mathml, children } => {
            let name2 = clone_qname(name);
            let attrs2 = clone_attrs(attrs);
            let template2 = match template {
                Option::Some(t) => Option::Some(Box::new(clone_node(&**t))),
                Option::None => Option::None,
            };
            let new_children = transform_from(children, 0, units);
            let r = Node::Element {
                name: name2,
                attrs: attrs2,
                template: template2,
                mathml: *mathml,
                children: new_children,
            };
            proof {
                let t = spec_transform(n@, a);
                lemma_node_views_from(r->Element_children@, 0);
                assert(node_views_from(r->Element_children@, 0) =~= t.0->Element_children);
                assert(Seq::new(r->Element_attrs@.len(), |i: int| r->Element_attrs@[i]@)
                    =~= Seq::new(attrs@.len(), |i: int| attrs@[i]@));
                assert(r@ =~~= t.0);
            }
            r
        },
        _ => {
            let r = clone_node(n);
            proof {
                assert(units@.skip(a) =~= Seq::<Unit>::empty());
            }
            r
        },
    }
}

/// Transforms the child slots `cs[i..]`, appending the units found.
pub fn transform_from(cs: &Vec<Node>, i: usize, units: &mut Vec<Unit>) -> (r: Vec<Node>)
    requires
        i <= cs@.len(),
    ensures
        ({
            let t = spec_transform_from(
                node_views_from(cs@, 0),
                i as int,
                old(units)@.len() as int,
            );
            &&& r@.len() == t.0.len()
            &&& forall|k: int| 0 <= k < r@.len() ==> r@[k]@ == #[trigger] t.0[k]
            &&& old(units)@.len() <= final(units)@.len()
            &&& forall|k: int| 0 <= k < old(units)@.len() ==> final(units)@[k] == old(units)@[k]
            &&& units_match(final(units)@.skip(old(units)@.len() as int), t.1)
            &&& t.2 == final(units)@.len() as int
        }),
    decreases cs@, cs@.len() - i, 1int,
{
    let ghost a = units@.len() as int;
    let ghost cv = node_views_from(cs@, 0);
    proof {
        lemma_node_views_from(cs@, 0);
    }
    if i == cs.len() {
        proof {
            assert(units@.skip(a) =~= Seq::<Unit>::empty());
        }
        Vec::new()
    } else {
        let h = transform_child(&cs[i], units);
        let ghost b = units@.len() as int;
        let mut rest = transform_from(cs, i + 1, units);
        let ghost c_len = units@.len() as int;
        let mut r: Vec<Node> = Vec::new();
        r.push(h);
        r.append(&mut rest);
        proof {
            let hs = spec_transform_child(cv[i as int], a);
            let ts = spec_transform_from(cv, i as int + 1, b);
            let t = spec_transform_from(cv, i as int, a);
            assert(cv[i as int] == cs@[i as int]@);
            assert(t.0 == seq![hs.0] + ts.0 && t.1 == hs.1 + ts.1 && t.2 == ts.2);
            assert(forall|k: int| 1 <= k < r@.len() ==> r@[k]@ == #[trigger] t.0[k]);
            let mid = units@.take(b).skip(a);
            assert(mid =~= units@.skip(a).take(b - a));
            assert(units_match(mid, hs.1));
            lemma_units_match_concat(mid, hs.1, units@.skip(b), ts.1);
            assert(mid + units@.skip(b) =~= units@.skip(a));
        }
        r
    }
}

/// Transforms one child slot: replacement on confirmed extraction, descent
/// otherwise.
pub fn transform_child(c: &Node, units: &mut Vec<Unit>) -> (r: Node)
    ensures
        ({
            let t = spec_transform_child(c@, old(units)@.len() as int);
            &&& r@ == t.0
            &&& old(units)@.len() <= final(units)@.len()
            &&& forall|k: int| 0 <= k < old(units)@.len() ==> final(units)@[k] == old(units)@[k]
            &&& units_match(final(units)@.skip(old(units)@.len() as int), t.1)
            &&& t.2 == final(units)@.len() as int
        }),
    decreases *c, 0int, 3int,
{
    let ghost a = units@.len() as int;
    if is_qualifying(c) {
        let text = text_of(c);
        match extract_parts(&text) {
            Option::Some(p) => {
                match parse_and_synthesize(&p.0) {
                    Option::Some(m) => {
                        let id: u64 = units.len() as u64;
                        let rep = make_replacement(id);
                        units.push(Unit { id, manifest: m, body: p.1 });
                        proof {
                            let t = spec_transform_child(c@, a);
                            assert(spec_attempt(spec_text_of(c@)) == Option::Some((p.0@, p.1@)));
                            assert(units@.skip(a) =~= seq![units@[a]]);
                            assert(unit_matches(
                                units@[a],
                                GUnit { id: a, fragment: p.0@, body: p.1@ },
                            ));
                        }
                        return rep;
                    },
                    Option::None => {},
                }
            },
            Option::None => {},
        }
    }
    let r = transform_node(c, units);
    proof {
        assert(spec_transform_child(c@, a) == spec_transform(c@, a));
    }
    r
}

/// Transforms a whole document.
///
/// The result tree is the input with every confirmed extraction replaced by
/// its loader element; the units come back in traversal order, the `n`-th
/// holding identifier `n - 1`, counted from zero. A document without
/// qualifying elements comes back identical and yields no units, and the
/// sibling count and order of every level is preserved.
pub fn process_document(doc: &Node) -> (r: (Node, Vec<Unit>))
    ensures
        ({
            let t = spec_transform(doc@, 0);
            &&& r.0@ == t.0
            &&& units_match(r.1@, t.1)
            &&& t.2 == r.1@.len() as int
        }),
        forall|k: int| 0 <= k < r.1@.len() ==> (#[trigger] r.1@[k]).id as int == k,
        !crate::laws::has_qualifying(doc@) ==> r.0@ == doc@ && r.1@.len() == 0,
        crate::laws::sibling_preserving(doc@, r.0@),
{
    let mut units: Vec<Unit> = Vec::new();
    let n = transform_node(doc, &mut units);
    proof {
        assert(units@.skip(0) =~= units@);
        crate::laws::lemma_ids(doc@, 0);
        crate::laws::lemma_shape(doc@, 0);
        if !crate::laws::has_qualifying(doc@) {
            crate::laws::lemma_no_qualifying_unchanged(doc@, 0);
        }
    }
    (n, units)
}

} // verus!
