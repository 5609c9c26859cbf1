use inline_units::bootstrap::{artifact_dir, dec_chars, doctype_line, temp_dir, wasm_pack_args};
use inline_units::extract::{extract_parts, manifest_text, split_markers};
use inline_units::manifest::{descriptor_text, parse_and_synthesize};
use inline_units::pipeline::{make_replacement, process_document, Unit};
use inline_units::text::{find_chars, trim_chars};
use inline_units::tree::{is_qualifying, Attr, Node, QName};

fn chars(s: &str) -> Vec<char> {
    s.chars().collect()
}

fn string_of(v: &[char]) -> String {
    v.iter().collect()
}

fn qname(local: &str) -> QName {
    QName { prefix: None, ns: chars("http://www.w3.org/1999/xhtml"), local: chars(local) }
}

fn attr(local: &str, value: &str) -> Attr {
    Attr { name: QName { prefix: None, ns: chars(""), local: chars(local) }, value: chars(value) }
}

fn elem(local: &str, attrs: Vec<Attr>, children: Vec<Node>) -> Node {
    Node::Element { name: qname(local), attrs, template: None, mathml: false, children }
}

fn script_rust(text: &str) -> Node {
    elem("script", vec![attr("type", "rust")], vec![Node::Text { contents: chars(text) }])
}

fn expected_hoist(id: &str) -> String {
    format!(
        "\nimport init, * as pub from './rust_modules/{}/index.js';\nfor (const key of Object.keys(pub)) \n{{\nif (key == 'default') {{\ncontinue;\n}}\nwindow[key] = pub[key];\n}}\nawait init();\n",
        id
    )
}

const SAMPLE: &str = "//! ```cargo\n//! [package]\n//! name = \"x\"\n//! ```\nfn main(){}";

#[test]
fn single_unit_is_rewritten_and_extracted() {
    let doc = Node::Document {
        children: vec![elem(
            "html",
            vec![],
            vec![elem("head", vec![], vec![]), elem("body", vec![], vec![script_rust(SAMPLE)])],
        )],
    };
    let (out, units) = process_document(&doc);
    assert_eq!(units.len(), 1);
    let u: &Unit = &units[0];
    assert_eq!(u.id, 0);
    assert_eq!(string_of(&u.body), "\nfn main(){}");
    let Node::Document { children } = &out else { panic!() };
    let Node::Element { children: html_children, .. } = &children[0] else { panic!() };
    let Node::Element { children: body_children, .. } = &html_children[1] else { panic!() };
    let Node::Element { name, attrs, children: script_children, .. } = &body_children[0] else {
        panic!()
    };
    assert_eq!(string_of(&name.local), "script");
    assert_eq!(attrs.len(), 1);
    assert_eq!(string_of(&attrs[0].name.local), "type");
    assert_eq!(string_of(&attrs[0].value), "module");
    let Node::Text { contents } = &script_children[0] else { panic!() };
    assert_eq!(string_of(contents), expected_hoist("0"));
}

#[test]
fn two_units_in_document_order_get_zero_and_one() {
    let doc = Node::Document {
        children: vec![elem(
            "html",
            vec![],
            vec![elem(
                "body",
                vec![],
                vec![
                    elem("div", vec![], vec![script_rust(SAMPLE)]),
                    script_rust(SAMPLE),
                ],
            )],
        )],
    };
    let (_, units) = process_document(&doc);
    assert_eq!(units.len(), 2);
    assert_eq!(units[0].id, 0);
    assert_eq!(units[1].id, 1);
    assert_eq!(string_of(&artifact_dir(units[0].id)), "rust_modules/0");
    assert_eq!(string_of(&artifact_dir(units[1].id)), "rust_modules/1");
}

#[test]
fn no_qualifying_elements_leaves_tree_identical() {
    let doc = Node::Document {
        children: vec![elem(
            "html",
            vec![],
            vec![
                Node::Comment { contents: chars(" nothing here ") },
                elem(
                    "body",
                    vec![attr("class", "plain")],
                    vec![
                        Node::Text { contents: chars("hello") },
                        elem("p", vec![], vec![Node::Text { contents: chars("world") }]),
                    ],
                ),
            ],
        )],
    };
    let (out, units) = process_document(&doc);
    assert!(units.is_empty());
    assert_eq!(out, doc);
}

#[test]
fn start_marker_without_end_marker_leaves_element_unchanged() {
    let text = "//! ```cargo\n//! [package]\n//! name = \"x\"\nfn main(){}";
    let doc = Node::Document {
        children: vec![elem("body", vec![], vec![script_rust(text)])],
    };
    let (out, units) = process_document(&doc);
    assert!(units.is_empty());
    assert_eq!(out, doc);
}

#[test]
fn script_without_markers_is_unchanged() {
    let doc = Node::Document {
        children: vec![elem("body", vec![], vec![script_rust("fn main(){}")])],
    };
    let (out, units) = process_document(&doc);
    assert!(units.is_empty());
    assert_eq!(out, doc);
}

#[test]
fn unparseable_fragment_is_skipped() {
    let text = "//! ```cargo\n//! not = = valid toml\n//! ```\nfn main(){}";
    let doc = Node::Document {
        children: vec![elem("body", vec![], vec![script_rust(text)])],
    };
    let (out, units) = process_document(&doc);
    assert!(units.is_empty());
    assert_eq!(out, doc);
}

#[test]
fn javascript_script_is_never_touched() {
    let js = elem(
        "script",
        vec![attr("type", "text/javascript")],
        vec![Node::Text { contents: chars("//! ```cargo\n//! ```\nalert(1)") }],
    );
    assert!(!is_qualifying(&js));
    let doc = Node::Document { children: vec![elem("body", vec![], vec![js])] };
    let (out, units) = process_document(&doc);
    assert!(units.is_empty());
    assert_eq!(out, doc);
}

#[test]
fn qualifying_needs_text_first_child() {
    let empty_script = elem("script", vec![attr("type", "rust")], vec![]);
    assert!(!is_qualifying(&empty_script));
    assert!(is_qualifying(&script_rust("x")));
}

#[test]
fn synthesized_descriptor_gets_cdylib_and_identity() {
    let m = parse_and_synthesize(&chars("[package]\nname = \"x\"\n")).unwrap();
    let toml_text = descriptor_text(&m).unwrap();
    assert!(toml_text.contains("cdylib"));
    assert!(toml_text.contains("name = \"x\""));
}

#[test]
fn synthesized_descriptor_keeps_existing_kinds() {
    let m = parse_and_synthesize(&chars("[lib]\ncrate-type = [\"rlib\"]\n")).unwrap();
    let toml_text = descriptor_text(&m).unwrap();
    assert!(toml_text.contains("rlib"));
    assert!(toml_text.contains("cdylib"));
    assert!(toml_text.contains("generated"));
    assert!(toml_text.contains("0.1.0"));
}

#[test]
fn synthesis_adds_no_duplicate_cdylib() {
    let m = parse_and_synthesize(&chars("[lib]\ncrate-type = [\"cdylib\"]\n")).unwrap();
    let toml_text = descriptor_text(&m).unwrap();
    assert_eq!(toml_text.matches("cdylib").count(), 1);
}

#[test]
fn empty_fragment_synthesizes_placeholder_package() {
    let m = parse_and_synthesize(&chars("")).unwrap();
    let toml_text = descriptor_text(&m).unwrap();
    assert!(toml_text.contains("generated"));
    assert!(toml_text.contains("cdylib"));
}

#[test]
fn marker_split_takes_first_occurrences() {
    let t = chars("before//! ```cargo//! a//! ```middle//! ```after");
    let (region, body) = split_markers(&t).unwrap();
    assert_eq!(string_of(&region), "//! a");
    assert_eq!(string_of(&body), "middle//! ```after");
}

#[test]
fn marker_split_requires_both_markers() {
    assert!(split_markers(&chars("no markers at all")).is_none());
    assert!(split_markers(&chars("//! ```")).is_none());
}

#[test]
fn manifest_lines_are_stripped_and_trimmed() {
    let region = chars("\n//! [package]\r\n  //!   name = \"x\"  \nstray line\n//!\n");
    let text = manifest_text(&region);
    assert_eq!(string_of(&text), "[package]\nname = \"x\"\n\n");
}

#[test]
fn extract_parts_assembles_fragment_and_body() {
    let (frag, body) = extract_parts(&chars(SAMPLE)).unwrap();
    assert_eq!(string_of(&frag), "[package]\nname = \"x\"\n");
    assert_eq!(string_of(&body), "\nfn main(){}");
}

#[test]
fn find_chars_reports_first_occurrence() {
    assert_eq!(find_chars(&chars("abcabc"), &chars("bc"), 0), Some(1));
    assert_eq!(find_chars(&chars("abcabc"), &chars("bc"), 2), Some(4));
    assert_eq!(find_chars(&chars("abcabc"), &chars("zz"), 0), None);
    assert_eq!(find_chars(&chars("abc"), &chars(""), 0), Some(0));
}

#[test]
fn trim_removes_ascii_whitespace() {
    assert_eq!(string_of(&trim_chars(chars("  \t a b \r\n"))), "a b");
    assert_eq!(string_of(&trim_chars(chars(""))), "");
    assert_eq!(string_of(&trim_chars(chars("   "))), "");
}

#[test]
fn decimal_and_directory_names() {
    assert_eq!(string_of(&dec_chars(0)), "0");
    assert_eq!(string_of(&dec_chars(7)), "7");
    assert_eq!(string_of(&dec_chars(1234567)), "1234567");
    assert_eq!(string_of(&temp_dir(3)), "temp_3");
    assert_eq!(string_of(&artifact_dir(12)), "rust_modules/12");
    assert_eq!(string_of(&doctype_line()), "<!DOCTYPE html>\n");
}

#[test]
fn build_arguments_have_the_fixed_shape() {
    let args = wasm_pack_args(&chars("stage/rust_modules/0"), &chars("stage/temp_0"));
    let got: Vec<String> = args.iter().map(|a| string_of(a)).collect();
    assert_eq!(
        got,
        vec![
            "build",
            "--no-typescript",
            "--out-dir",
            "stage/rust_modules/0",
            "--out-name",
            "index",
            "--target",
            "web",
            "stage/temp_0",
        ]
    );
}

#[test]
fn replacement_element_text_matches_template() {
    let r = make_replacement(42);
    let Node::Element { name, attrs, children, .. } = &r else { panic!() };
    assert_eq!(string_of(&name.local), "script");
    assert_eq!(string_of(&attrs[0].value), "module");
    let Node::Text { contents } = &children[0] else { panic!() };
    assert_eq!(string_of(contents), expected_hoist("42"));
}

#[test]
fn identifiers_follow_document_order_across_depths() {
    let doc = Node::Document {
        children: vec![elem(
            "body",
            vec![],
            vec![
                script_rust(SAMPLE),
                elem("div", vec![], vec![elem("div", vec![], vec![script_rust(SAMPLE)])]),
                script_rust(SAMPLE),
            ],
        )],
    };
    let (_, units) = process_document(&doc);
    assert_eq!(units.len(), 3);
    for (k, u) in units.iter().enumerate() {
        assert_eq!(u.id, k as u64);
    }
}

#[test]
fn extraction_replaces_the_whole_element_with_its_descendants() {
    let outer = elem(
        "script",
        vec![attr("type", "rust")],
        vec![Node::Text { contents: chars(SAMPLE) }, script_rust(SAMPLE)],
    );
    let doc = Node::Document { children: vec![elem("body", vec![], vec![outer])] };
    let (out, units) = process_document(&doc);
    assert_eq!(units.len(), 1);
    let Node::Document { children } = &out else { panic!() };
    let Node::Element { children: body_children, .. } = &children[0] else { panic!() };
    let Node::Element { children: script_children, .. } = &body_children[0] else { panic!() };
    assert_eq!(script_children.len(), 1);
    assert!(matches!(&script_children[0], Node::Text { .. }));
}

#[test]
fn sibling_count_and_order_are_preserved() {
    let doc = Node::Document {
        children: vec![elem(
            "body",
            vec![],
            vec![
                Node::Text { contents: chars("a") },
                script_rust(SAMPLE),
                Node::Text { contents: chars("b") },
            ],
        )],
    };
    let (out, units) = process_document(&doc);
    assert_eq!(units.len(), 1);
    let Node::Document { children } = &out else { panic!() };
    let Node::Element { children: body_children, .. } = &children[0] else { panic!() };
    assert_eq!(body_children.len(), 3);
    assert!(matches!(&body_children[0], Node::Text { .. }));
    assert!(matches!(&body_children[1], Node::Element { .. }));
    assert!(matches!(&body_children[2], Node::Text { .. }));
}
