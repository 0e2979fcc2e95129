use growser::name::{Attribute, QualName};
use growser::node::{HtmlNode, LayoutAction, Piece, Slot};
use growser::render::{node_type_of, HtmlNodeType};
use growser::sink::{HtmlElement, Sink};

fn tag(local: &str) -> QualName {
    QualName { prefix: None, ns: "http://www.w3.org/1999/xhtml".to_string(), local: local.to_string() }
}

fn built() -> (Sink, usize, usize, usize) {
    let mut s = Sink::new();
    let body = s.create_element(tag("body"), vec![]);
    s.append_node(0, body);
    let p = s.create_element(tag("p"), vec![]);
    s.append_node(body, p);
    s.append_text(p, "Hello".to_string());
    let b = s.create_element(tag("b"), vec![]);
    s.append_node(p, b);
    (s, body, p, b)
}

#[test]
fn mapping_in_id_order() {
    let (s, body, p, b) = built();
    let text = s.element(p).unwrap().children[0];
    let kinds = s.map_nodes();
    assert_eq!(
        kinds,
        vec![
            (body, HtmlNodeType::Generic),
            (p, HtmlNodeType::Generic),
            (text, HtmlNodeType::Text("Hello".to_string())),
            (b, HtmlNodeType::Generic),
        ]
    );
}

#[test]
fn mapping_twice_is_identical() {
    let (s, _, _, _) = built();
    assert_eq!(s.map_nodes(), s.map_nodes());
}

#[test]
fn attach_plan_roots_then_children() {
    let (s, body, p, b) = built();
    let text = s.element(p).unwrap().children[0];
    assert_eq!(s.attach_plan(), vec![(0, body), (body, p), (p, text), (p, b)]);
}

#[test]
fn foreign_names_are_generic() {
    let e = HtmlElement {
        element_type: QualName { prefix: Some("growser".to_string()), ns: "urn:other".to_string(), local: "text".to_string() },
        attributes: vec![Attribute { name: tag("content"), value: "x".to_string() }],
        children: vec![],
        parent: 0,
    };
    assert_eq!(node_type_of(&e), HtmlNodeType::Generic);
    let plain = HtmlElement { element_type: tag("p"), attributes: vec![], children: vec![], parent: 0 };
    assert_eq!(node_type_of(&plain), HtmlNodeType::Generic);
}

#[test]
fn text_node_promotes_to_row_once() {
    let mut n = HtmlNode::new();
    assert_eq!(n.slot, Slot::Unset);
    n.set_node_type(HtmlNodeType::Text("label".to_string()));
    assert_eq!(n.slot, Slot::Label);
    assert_eq!(n.add_html_child(7), LayoutAction::Promote);
    assert_eq!(n.add_html_child(9), LayoutAction::AddToRow);
    assert_eq!(n.slot, Slot::Row(vec![Piece::Label, Piece::Child(7), Piece::Child(9)]));
    assert_eq!(n.node_type, HtmlNodeType::Text("label".to_string()));
}

#[test]
fn generic_node_stacks_children() {
    let mut n = HtmlNode::new();
    n.set_node_type(HtmlNodeType::Generic);
    assert_eq!(n.slot, Slot::Stack(vec![]));
    assert_eq!(n.add_html_child(3), LayoutAction::AddToStack);
    assert_eq!(n.add_html_child(5), LayoutAction::AddToStack);
    assert_eq!(n.slot, Slot::Stack(vec![3, 5]));
}

#[test]
fn content_is_read_from_the_builder_attribute() {
    let sentinel = "https://hugo4it.com/growser/2022".to_string();
    let e = HtmlElement {
        element_type: QualName { prefix: Some("growser".to_string()), ns: sentinel.clone(), local: "text".to_string() },
        attributes: vec![
            Attribute { name: tag("content"), value: "a".to_string() },
            Attribute {
                name: QualName { prefix: Some("growser".to_string()), ns: sentinel.clone(), local: "content".to_string() },
                value: "b".to_string(),
            },
        ],
        children: vec![],
        parent: 0,
    };
    assert_eq!(node_type_of(&e), HtmlNodeType::Text("b".to_string()));
    let bare = HtmlElement {
        element_type: QualName { prefix: Some("growser".to_string()), ns: sentinel, local: "text".to_string() },
        attributes: vec![Attribute { name: tag("content"), value: "a".to_string() }],
        children: vec![],
        parent: 0,
    };
    assert_eq!(node_type_of(&bare), HtmlNodeType::Text(String::new()));
}
