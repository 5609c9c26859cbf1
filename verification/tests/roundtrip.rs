use html5ever::tendril::TendrilSink;
use html5ever::tree_builder::TreeBuilderOpts;
use html5ever::{Attribute, LocalName, Namespace, ParseOpts, Prefix, QualName};
use markup5ever_rcdom::{Handle, Node as RcNode, NodeData, RcDom, SerializableHandle};

use inline_units::bootstrap::doctype_line;
use inline_units::pipeline::process_document;
use inline_units::tree::{Attr, Node, QName};

fn chars_of(s: &str) -> Vec<char> {
    s.chars().collect()
}

fn string_of(v: &[char]) -> String {
    v.iter().collect()
}

fn qname_from(q: &QualName) -> QName {
    QName {
        prefix: q.prefix.as_ref().map(|p| chars_of(p.as_ref())),
        ns: chars_of(q.ns.as_ref()),
        local: chars_of(q.local.as_ref()),
    }
}

fn qname_to(q: &QName) -> QualName {
    QualName::new(
        q.prefix.as_ref().map(|p| Prefix::from(string_of(p).as_str())),
        Namespace::from(string_of(&q.ns).as_str()),
        LocalName::from(string_of(&q.local).as_str()),
    )
}

fn from_rcdom(h: &Handle) -> Node {
    let children: Vec<Node> = h.children.borrow().iter().map(from_rcdom).collect();
    match &h.data {
        NodeData::Document => Node::Document { children },
        NodeData::Doctype { name, public_id, system_id } => Node::Doctype {
            name: chars_of(name),
            public_id: chars_of(public_id),
            system_id: chars_of(system_id),
        },
        NodeData::Text { contents } => Node::Text { contents: chars_of(&contents.borrow()) },
        NodeData::Comment { contents } => Node::Comment { contents: chars_of(contents) },
        NodeData::Element { name, attrs, template_contents, mathml_annotation_xml_integration_point } => {
            Node::Element {
                name: qname_from(name),
                attrs: attrs
                    .borrow()
                    .iter()
                    .map(|a| Attr { name: qname_from(&a.name), value: chars_of(&a.value) })
                    .collect(),
                template: template_contents.borrow().as_ref().map(|t| Box::new(from_rcdom(t))),
                mathml: *mathml_annotation_xml_integration_point,
                children,
            }
        }
        NodeData::ProcessingInstruction { target, contents } => Node::Pi {
            target: chars_of(target),
            contents: chars_of(contents),
        },
    }
}

fn node_children(n: &Node) -> &[Node] {
    match n {
        Node::Document { children } => children,
        Node::Element { children, .. } => children,
        _ => &[],
    }
}

fn to_rcdom(n: &Node) -> Handle {
    let data = match n {
        Node::Document { .. } => NodeData::Document,
        Node::Doctype { name, public_id, system_id } => NodeData::Doctype {
            name: string_of(name).into(),
            public_id: string_of(public_id).into(),
            system_id: string_of(system_id).into(),
        },
        Node::Text { contents } => NodeData::Text {
            contents: std::cell::RefCell::new(string_of(contents).into()),
        },
        Node::Comment { contents } => NodeData::Comment { contents: string_of(contents).into() },
        Node::Element { name, attrs, template, mathml, .. } => NodeData::Element {
            name: qname_to(name),
            attrs: std::cell::RefCell::new(
                attrs
                    .iter()
                    .map(|a| Attribute { name: qname_to(&a.name), value: string_of(&a.value).into() })
                    .collect(),
            ),
            template_contents: std::cell::RefCell::new(template.as_ref().map(|t| to_rcdom(t))),
            mathml_annotation_xml_integration_point: *mathml,
        },
        Node::Pi { target, contents } => NodeData::ProcessingInstruction {
            target: string_of(target).into(),
            contents: string_of(contents).into(),
        },
    };
    let h = RcNode::new(data);
    for c in node_children(n) {
        let child = to_rcdom(c);
        h.children.borrow_mut().push(child);
    }
    h
}

fn parse_bytes(bytes: &[u8]) -> Node {
    let opts = ParseOpts {
        tree_builder: TreeBuilderOpts { drop_doctype: true, ..Default::default() },
        ..Default::default()
    };
    let dom = html5ever::parse_document(RcDom::default(), opts)
        .from_utf8()
        .read_from(&mut &bytes[..])
        .unwrap();
    from_rcdom(&dom.document)
}

fn serialize_tree(n: &Node) -> Vec<u8> {
    let handle = to_rcdom(n);
    let mut out: Vec<u8> = Vec::new();
    let document: SerializableHandle = handle.into();
    html5ever::serialize(&mut out, &document, Default::default()).unwrap();
    out
}

#[test]
fn round_trip_without_units_keeps_structure() {
    let page = b"<html><head><title>t</title></head><body class=\"c\">\
                 <p>hello</p><!-- note --><div id=\"d\"><span>x</span></div></body></html>";
    let tree = parse_bytes(page);
    let (out, units) = process_document(&tree);
    assert!(units.is_empty());
    assert_eq!(out, tree);
    let bytes = serialize_tree(&out);
    let again = parse_bytes(&bytes);
    assert_eq!(again, tree);
}

#[test]
fn full_pipeline_rewrites_parsed_document() {
    let page = b"<html><head></head><body><script type=\"rust\">//! ```cargo\n//! [package]\n//! name = \"x\"\n//! ```\nfn main(){}</script></body></html>";
    let tree = parse_bytes(page);
    let (out, units) = process_document(&tree);
    assert_eq!(units.len(), 1);
    assert_eq!(units[0].id, 0);
    let mut output: Vec<u8> = Vec::new();
    let doctype: String = doctype_line().iter().collect();
    output.extend_from_slice(doctype.as_bytes());
    output.extend_from_slice(&serialize_tree(&out));
    let text = String::from_utf8(output).unwrap();
    assert!(text.starts_with("<!DOCTYPE html>\n"));
    assert!(text.contains("<script type=\"module\">"));
    assert!(text.contains("./rust_modules/0/index.js"));
    assert!(!text.contains("fn main(){}"));
}
