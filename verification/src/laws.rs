//! Stated and proved properties of the document transform.

use vstd::prelude::*;

use crate::pipeline::{
    spec_attempt, spec_replacement, spec_transform, spec_transform_child, spec_transform_from,
    GUnit,
};
use crate::tree::{children_of, spec_qualifying, spec_text_of, NodeV};

verus! {

/// An extraction site: a qualifying element whose text yields a unit.
pub open spec fn is_site(c: NodeV) -> bool {
    spec_qualifying(c) && spec_attempt(spec_text_of(c)) is Some
}

/// Whether any child slot of `n`, at any depth, is an extraction site.
pub open spec fn has_site(n: NodeV) -> bool
    decreases n, 0int, 0int,
{
    match n {
        NodeV::Document { children } => has_site_from(children, 0),
        NodeV::Element { children, .. } => has_site_from(children, 0),
        _ => false,
    }
}

/// Whether any of the slots `cs[i..]` holds a site, at any depth.
pub open spec fn has_site_from(cs: Seq<NodeV>, i: int) -> bool
    decreases cs, cs.len() - i, 1int,
{
    if i < 0 || i >= cs.len() {
        false
    } else {
        is_site(cs[i]) || has_site(cs[i]) || has_site_from(cs, i + 1)
    }
}

/// Whether any child slot of `n`, at any depth, holds a qualifying element.
pub open spec fn has_qualifying(n: NodeV) -> bool
    decreases n, 0int, 0int,
{
    match n {
        NodeV::Document { children } => has_qualifying_from(children, 0),
        NodeV::Element { children, .. } => has_qualifying_from(children, 0),
        _ => false,
    }
}

/// Whether any of the slots `cs[i..]` holds a qualifying element, at any
/// depth.
pub open spec fn has_qualifying_from(cs: Seq<NodeV>, i: int) -> bool
    decreases cs, cs.len() - i, 1int,
{
    if i < 0 || i >= cs.len() {
        false
    } else {
        spec_qualifying(cs[i]) || has_qualifying(cs[i]) || has_qualifying_from(cs, i + 1)
    }
}

/// Every extraction site is a qualifying element.
pub proof fn lemma_site_is_qualifying(n: NodeV)
    requires
        has_site(n),
    ensures
        has_qualifying(n),
    decreases n, 0int, 0int,
{
    match n {
        NodeV::Document { children } => {
            lemma_site_is_qualifying_from(children, 0);
        },
        NodeV::Element { children, .. } => {
            lemma_site_is_qualifying_from(children, 0);
        },
        _ => {},
    }
}

/// Every extraction site among the slots `cs[i..]` is a qualifying element.
pub proof fn lemma_site_is_qualifying_from(cs: Seq<NodeV>, i: int)
    requires
        has_site_from(cs, i),
    ensures
        has_qualifying_from(cs, i),
    decreases cs, cs.len() - i, 1int,
{
    if 0 <= i < cs.len() {
        if is_site(cs[i]) {
        } else if has_site(cs[i]) {
            lemma_site_is_qualifying(cs[i]);
        } else {
            lemma_site_is_qualifying_from(cs, i + 1);
        }
    }
}

/// For all documents with zero qualifying elements, the transformed tree is
/// structurally identical to the input, and no unit is extracted.
pub proof fn lemma_no_qualifying_unchanged(n: NodeV, next: int)
    requires
        !has_qualifying(n),
    ensures
        spec_transform(n, next) == (n, Seq::<GUnit>::empty(), next),
{
    if has_site(n) {
        lemma_site_is_qualifying(n);
    }
    lemma_no_sites_unchanged(n, next);
}

/// A document without extraction sites comes out of the transform
/// structurally identical to how it went in, and yields no units.
pub proof fn lemma_no_sites_unchanged(n: NodeV, next: int)
    requires
        !has_site(n),
    ensures
        spec_transform(n, next) == (n, Seq::<GUnit>::empty(), next),
    decreases n, 0int, 0int,
{
    match n {
        NodeV::Document { children } => {
            lemma_no_sites_unchanged_from(children, 0, next);
            assert(children.skip(0) =~= children);
            assert(spec_transform(n, next).0 =~~= n);
        },
        NodeV::Element { children, .. } => {
            lemma_no_sites_unchanged_from(children, 0, next);
            assert(children.skip(0) =~= children);
            assert(spec_transform(n, next).0 =~~= n);
        },
        _ => {},
    }
}

/// The slots `cs[i..]` of a site-free region are left as they stand.
pub proof fn lemma_no_sites_unchanged_from(cs: Seq<NodeV>, i: int, next: int)
    requires
        0 <= i <= cs.len(),
        !has_site_from(cs, i),
    ensures
        spec_transform_from(cs, i, next) == (cs.skip(i), Seq::<GUnit>::empty(), next),
    decreases cs, cs.len() - i, 2int,
{
    if i == cs.len() {
        assert(cs.skip(i) =~= Seq::<NodeV>::empty());
    } else {
        lemma_no_site_child(cs[i], next);
        lemma_no_sites_unchanged_from(cs, i + 1, next);
        assert(seq![cs[i]] + cs.skip(i + 1) =~= cs.skip(i));
        assert(Seq::<GUnit>::empty() + Seq::<GUnit>::empty() =~= Seq::<GUnit>::empty());
    }
}

/// A child slot that is no site and holds no site is left as it stands.
pub proof fn lemma_no_site_child(c: NodeV, next: int)
    requires
        !is_site(c),
        !has_site(c),
    ensures
        spec_transform_child(c, next) == (c, Seq::<GUnit>::empty(), next),
    decreases c, 0int, 1int,
{
    lemma_no_sites_unchanged(c, next);
}

/// Identifier assignment is monotonic, zero-based at `next`, and matches
/// traversal order: the `k`-th unit of the transform started at `next`
/// carries identifier `next + k`, and the final counter is `next` plus the
/// number of units.
pub proof fn lemma_ids(n: NodeV, next: int)
    ensures
        ({
            let t = spec_transform(n, next);
            &&& t.2 == next + t.1.len()
            &&& forall|k: int| 0 <= k < t.1.len() ==> (#[trigger] t.1[k]).id == next + k
        }),
    decreases n, 0int, 0int,
{
    match n {
        NodeV::Document { children } => {
            lemma_ids_from(children, 0, next);
        },
        NodeV::Element { children, .. } => {
            lemma_ids_from(children, 0, next);
        },
        _ => {},
    }
}

/// Identifier assignment over the slots `cs[i..]`.
pub proof fn lemma_ids_from(cs: Seq<NodeV>, i: int, next: int)
    ensures
        ({
            let t = spec_transform_from(cs, i, next);
            &&& t.2 == next + t.1.len()
            &&& forall|k: int| 0 <= k < t.1.len() ==> (#[trigger] t.1[k]).id == next + k
        }),
    decreases cs, cs.len() - i, 2int,
{
    if 0 <= i < cs.len() {
        let h = spec_transform_child(cs[i], next);
        lemma_ids_child(cs[i], next);
        lemma_ids_from(cs, i + 1, h.2);
        let t = spec_transform_from(cs, i + 1, h.2);
        assert forall|k: int| 0 <= k < (h.1 + t.1).len() implies (#[trigger] (h.1 + t.1)[k]).id
            == next + k by {
            if k < h.1.len() {
                assert((h.1 + t.1)[k] == h.1[k]);
            } else {
                assert((h.1 + t.1)[k] == t.1[k - h.1.len()]);
            }
        }
    }
}

/// Identifier assignment at one child slot.
pub proof fn lemma_ids_child(c: NodeV, next: int)
    ensures
        ({
            let t = spec_transform_child(c, next);
            &&& t.2 == next + t.1.len()
            &&& forall|k: int| 0 <= k < t.1.len() ==> (#[trigger] t.1[k]).id == next + k
        }),
    decreases c, 0int, 1int,
{
    if spec_qualifying(c) && spec_attempt(spec_text_of(c)) is Some {
    } else {
        lemma_ids(c, next);
    }
}

/// One child slot is preserved: either order and content are kept apart
/// from the transform of its own children, or the slot was a site and now
/// holds a replacement element.
pub open spec fn preserves_child(a: NodeV, b: NodeV) -> bool
    decreases a, 0int, 2int,
{
    (is_site(a) && (exists|id: int| b == spec_replacement(id))) || sibling_preserving(a, b)
}

/// The slots `a[i..]` and `b[i..]` correspond one to one.
pub open spec fn preserves_from(a: Seq<NodeV>, b: Seq<NodeV>, i: int) -> bool
    decreases a, a.len() - i, 1int,
{
    if i < 0 || i >= a.len() {
        true
    } else {
        i < b.len() && preserves_child(a[i], b[i]) && preserves_from(a, b, i + 1)
    }
}

/// Sibling preservation: `b` is `a` with the same kind, name, attributes
/// and sibling count at every level, each child slot either preserved in
/// order or replaced in place.
pub open spec fn sibling_preserving(a: NodeV, b: NodeV) -> bool
    decreases a, 0int, 0int,
{
    match a {
        NodeV::Document { children } => {
            &&& b is Document
            &&& children_of(b).len() == children.len()
            &&& preserves_from(children, children_of(b), 0)
        },
        NodeV::Element { name, attrs, template, mathml, children } => {
            &&& b is Element
            &&& b == NodeV::Element {
                name,
                attrs,
                template,
                mathml,
                children: children_of(b),
            }
            &&& children_of(b).len() == children.len()
            &&& preserves_from(children, children_of(b), 0)
        },
        _ => b == a,
    }
}

/// Replacement preserves sibling count and relative order at every tree
/// level the transform touches.
pub proof fn lemma_shape(n: NodeV, next: int)
    ensures
        sibling_preserving(n, spec_transform(n, next).0),
    decreases n, 0int, 0int,
{
    match n {
        NodeV::Document { children } => {
            lemma_shape_from(children, 0, next);
            assert(children.skip(0) =~= children);
            assert(children_of(spec_transform(n, next).0) == spec_transform_from(
                children,
                0,
                next,
            ).0);
        },
        NodeV::Element { children, .. } => {
            lemma_shape_from(children, 0, next);
            assert(children.skip(0) =~= children);
            assert(children_of(spec_transform(n, next).0) == spec_transform_from(
                children,
                0,
                next,
            ).0);
        },
        _ => {},
    }
}

/// Shape preservation over the slots `cs[i..]`.
pub proof fn lemma_shape_from(cs: Seq<NodeV>, i: int, next: int)
    requires
        0 <= i <= cs.len(),
    ensures
        ({
            let t = spec_transform_from(cs, i, next);
            &&& t.0.len() == cs.len() - i
            &&& preserves_from(cs.skip(i), t.0, 0)
        }),
    decreases cs, cs.len() - i, 2int,
{
    if i < cs.len() {
        let h = spec_transform_child(cs[i], next);
        lemma_shape_child(cs[i], next);
        lemma_shape_from(cs, i + 1, h.2);
        let t1 = spec_transform_from(cs, i + 1, h.2);
        let t = spec_transform_from(cs, i, next);
        lemma_preserves_unfold(cs.skip(i + 1), t1.0, 0);
        assert forall|k: int| 0 <= k < cs.skip(i).len() implies preserves_child(
            #[trigger] cs.skip(i)[k],
            t.0[k],
        ) by {
            if k == 0 {
                assert(cs.skip(i)[0] == cs[i] && t.0[0] == h.0);
            } else {
                assert(cs.skip(i)[k] == cs.skip(i + 1)[k - 1]);
                assert(t.0[k] == t1.0[k - 1]);
            }
        }
        lemma_preserves_fold(cs.skip(i), t.0, 0);
    }
}

/// Pointwise preservation of all slots gives `preserves_from`.
proof fn lemma_preserves_fold(a: Seq<NodeV>, b: Seq<NodeV>, i: int)
    requires
        0 <= i <= a.len(),
        b.len() == a.len(),
        forall|k: int| i <= k < a.len() ==> preserves_child(#[trigger] a[k], b[k]),
    ensures
        preserves_from(a, b, i),
    decreases a.len() - i,
{
    if i < a.len() {
        lemma_preserves_fold(a, b, i + 1);
    }
}

/// `preserves_from` gives pointwise preservation of all slots.
proof fn lemma_preserves_unfold(a: Seq<NodeV>, b: Seq<NodeV>, i: int)
    requires
        0 <= i <= a.len(),
        preserves_from(a, b, i),
    ensures
        forall|k: int| i <= k < a.len() ==> preserves_child(#[trigger] a[k], b[k]),
    decreases a.len() - i,
{
    if i < a.len() {
        lemma_preserves_unfold(a, b, i + 1);
    }
}

/// Shape preservation at one child slot.
pub proof fn lemma_shape_child(c: NodeV, next: int)
    ensures
        preserves_child(c, spec_transform_child(c, next).0),
    decreases c, 0int, 1int,
{
    if spec_qualifying(c) && spec_attempt(spec_text_of(c)) is Some {
        let b = spec_transform_child(c, next).0;
        assert(b == spec_replacement(next));
    } else {
        lemma_shape(c, next);
        assert(sibling_preserving(c, spec_transform(c, next).0));
    }
}

/// Text nodes and the other childless kinds hold no site.
pub proof fn lemma_text_children_no_sites(cs: Seq<NodeV>, i: int)
    requires
        0 <= i <= cs.len(),
        forall|k: int| 0 <= k < cs.len() ==> (#[trigger] cs[k]) is Text,
    ensures
        !has_site_from(cs, i),
    decreases cs.len() - i,
{
    if i < cs.len() {
        assert(cs[i] is Text);
        assert(!spec_qualifying(cs[i]));
        assert(!has_site(cs[i]));
        lemma_text_children_no_sites(cs, i + 1);
    }
}

/// An element whose text lacks a marker, or whose manifest fragment does
/// not parse, is left exactly as it stands: a qualifying element with text
/// children on which the extraction attempt yields nothing passes through
/// the transform unchanged and yields no unit. The same holds for any
/// element that does not qualify at all, such as a script of another type.
pub proof fn lemma_skipped_element(c: NodeV, next: int)
    requires
        spec_attempt(spec_text_of(c)) is None || !spec_qualifying(c),
        forall|k: int| 0 <= k < children_of(c).len() ==> (#[trigger] children_of(c)[k]) is Text,
    ensures
        spec_transform_child(c, next) == (c, Seq::<GUnit>::empty(), next),
{
    lemma_text_children_no_sites(children_of(c), 0);
    assert(!has_site(c)) by {
        match c {
            NodeV::Document { children } => {},
            NodeV::Element { children, .. } => {},
            _ => {},
        }
    }
    lemma_no_site_child(c, next);
}

} // verus!
