use growser::name::{Attribute, QualName};
use growser::resource::HtmlResource;
use growser::sink::Sink;

const HTML: &str = "http://www.w3.org/1999/xhtml";

fn tag(local: &str) -> QualName {
    QualName { prefix: None, ns: HTML.to_string(), local: local.to_string() }
}

fn attr(name: &str, value: &str) -> Attribute {
    Attribute {
        name: QualName { prefix: None, ns: String::new(), local: name.to_string() },
        value: value.to_string(),
    }
}

#[test]
fn style_with_src_is_linked_and_drops_text() {
    let mut s = Sink::new();
    let body = s.create_element(tag("body"), vec![]);
    let style = s.create_element(tag("style"), vec![attr("src", "a.css")]);
    s.append_node(body, style);
    s.append_text(style, "text".to_string());
    assert_eq!(s.style(style), Some(&HtmlResource::Linked("a.css".to_string())));
    assert_eq!(s.script(style), None);
    assert_eq!(s.element(style).unwrap().children.len(), 0);
}

#[test]
fn inline_style_is_source() {
    let mut s = Sink::new();
    let style = s.create_element(tag("style"), vec![]);
    assert_eq!(s.style(style), None);
    s.append_text(style, "body{color:red}".to_string());
    assert_eq!(s.style(style), Some(&HtmlResource::Source("body{color:red}".to_string())));
}

#[test]
fn inline_text_appends_in_order() {
    let mut s = Sink::new();
    let script = s.create_element(tag("script"), vec![]);
    s.append_text(script, "let a = 1;".to_string());
    s.append_text(script, "  \n".to_string());
    s.append_text(script, "run(a);".to_string());
    assert_eq!(s.script(script), Some(&HtmlResource::Source("let a = 1;  \nrun(a);".to_string())));
    assert_eq!(s.style(script), None);
}

#[test]
fn script_with_src_is_linked() {
    let mut s = Sink::new();
    let script = s.create_element(tag("script"), vec![attr("type", "module"), attr("src", "m.js")]);
    s.append_text(script, "ignored()".to_string());
    assert_eq!(s.script(script), Some(&HtmlResource::Linked("m.js".to_string())));
}

#[test]
fn first_src_wins() {
    let mut s = Sink::new();
    let style = s.create_element(tag("style"), vec![attr("src", "one.css"), attr("src", "two.css")]);
    assert_eq!(s.style(style), Some(&HtmlResource::Linked("one.css".to_string())));
}

#[test]
fn stylesheet_link_is_linked() {
    let mut s = Sink::new();
    let link = s.create_element(tag("link"), vec![attr("rel", "stylesheet"), attr("src", "b.css")]);
    assert_eq!(s.style(link), Some(&HtmlResource::Linked("b.css".to_string())));
    let late = s.create_element(tag("link"), vec![attr("src", "d.css"), attr("rel", "stylesheet")]);
    assert_eq!(s.style(late), Some(&HtmlResource::Linked("d.css".to_string())));
}

#[test]
fn icon_link_is_not_recorded() {
    let mut s = Sink::new();
    let link = s.create_element(tag("link"), vec![attr("rel", "icon"), attr("src", "c.ico")]);
    assert_eq!(s.style(link), None);
    assert_eq!(s.script(link), None);
    let upper = s.create_element(tag("link"), vec![attr("rel", "Stylesheet"), attr("src", "e.css")]);
    assert_eq!(s.style(upper), None);
    let no_src = s.create_element(tag("link"), vec![attr("rel", "stylesheet")]);
    assert_eq!(s.style(no_src), None);
}

#[test]
fn whitespace_between_divs_makes_no_text_node() {
    let mut s = Sink::new();
    let body = s.create_element(tag("body"), vec![]);
    let a = s.create_element(tag("div"), vec![]);
    s.append_node(body, a);
    s.append_text(body, " \n\t  ".to_string());
    let b = s.create_element(tag("div"), vec![]);
    s.append_node(body, b);
    assert_eq!(s.element(body).unwrap().children, vec![a, b]);
    assert_eq!(s.elements.len(), 3);
}

#[test]
fn text_becomes_element() {
    let mut s = Sink::new();
    let p = s.create_element(tag("p"), vec![]);
    s.append_text(p, " hello ".to_string());
    let kids = s.element(p).unwrap().children.clone();
    assert_eq!(kids.len(), 1);
    let t = s.element(kids[0]).unwrap();
    assert_eq!(t.parent, p);
    assert_eq!(t.element_type.local, "text");
    assert_eq!(t.element_type.ns, "https://hugo4it.com/growser/2022");
    assert_eq!(t.element_type.prefix, Some("growser".to_string()));
    assert_eq!(t.attributes.len(), 1);
    assert_eq!(t.attributes[0].name.local, "content");
    assert_eq!(t.attributes[0].value, " hello ");
}

#[test]
fn ids_step_by_two() {
    let mut s = Sink::new();
    assert_eq!(s.get_document(), 0);
    let a = s.create_element(tag("html"), vec![]);
    let c = s.create_comment();
    let b = s.create_element(tag("head"), vec![]);
    assert_eq!((a, c, b), (1, 3, 5));
    assert!(s.contains(a));
    assert!(!s.contains(c));
    assert_eq!(s.elem_name(b).local, "head");
}

#[test]
fn append_to_document_leaves_node_unlinked() {
    let mut s = Sink::new();
    let html = s.create_element(tag("html"), vec![]);
    s.append_node(0, html);
    assert_eq!(s.element(html).unwrap().parent, 0);
}

#[test]
fn tree_links_follow_nesting() {
    let mut s = Sink::new();
    let html = s.create_element(tag("html"), vec![]);
    s.append_node(0, html);
    let body = s.create_element(tag("body"), vec![]);
    s.append_node(html, body);
    let div = s.create_element(tag("div"), vec![]);
    s.append_node(body, div);
    s.append_text(div, "hi".to_string());
    let span = s.create_element(tag("span"), vec![]);
    s.append_node(body, span);
    // four start tags and one text node
    assert_eq!(s.elements.len(), 5);
    assert_eq!(s.element(html).unwrap().children, vec![body]);
    assert_eq!(s.element(body).unwrap().children, vec![div, span]);
    assert_eq!(s.element(body).unwrap().parent, html);
    assert_eq!(s.element(div).unwrap().parent, body);
    assert_eq!(s.element(span).unwrap().parent, body);
    let text = s.element(div).unwrap().children[0];
    assert_eq!(s.element(text).unwrap().parent, div);
}

#[test]
fn template_contents_is_next_id() {
    let mut s = Sink::new();
    let t = s.create_element(tag("template"), vec![]);
    let d = s.create_element(tag("div"), vec![]);
    assert!(s.is_template(t));
    assert!(!s.is_template(d));
    assert!(!s.is_template(99));
    assert_eq!(s.get_template_contents(t), t + 1);
    assert!(s.same_node(t, t));
    assert!(!s.same_node(t, d));
}

#[test]
fn append_that_breaks_the_tree_is_ignored() {
    let mut s = Sink::new();
    let a = s.create_element(tag("div"), vec![]);
    let b = s.create_element(tag("div"), vec![]);
    let c = s.create_element(tag("span"), vec![]);
    s.append_node(a, c);
    // already attached: not moved, not listed twice
    s.append_node(a, c);
    s.append_node(b, c);
    // an element under itself
    s.append_node(b, b);
    assert_eq!(s.element(a).unwrap().children, vec![c]);
    assert_eq!(s.element(c).unwrap().parent, a);
    assert_eq!(s.element(b).unwrap().children, Vec::<usize>::new());
    assert_eq!(s.element(b).unwrap().parent, 0);
    // an element under one of its own descendants
    s.append_node(c, a);
    assert_eq!(s.element(a).unwrap().parent, 0);
    assert_eq!(s.element(c).unwrap().children, Vec::<usize>::new());
    assert_eq!(s.attach_plan(), vec![(0, a), (0, b), (a, c)]);
}

#[test]
fn element_with_children_is_attached_whole() {
    let mut s = Sink::new();
    let a = s.create_element(tag("div"), vec![]);
    let b = s.create_element(tag("b"), vec![]);
    let c = s.create_element(tag("i"), vec![]);
    s.append_node(b, c);
    s.append_text(c, "x".to_string());
    s.append_node(a, b);
    assert_eq!(s.element(a).unwrap().children, vec![b]);
    assert_eq!(s.element(b).unwrap().parent, a);
    assert_eq!(s.element(b).unwrap().children, vec![c]);
    assert_eq!(s.element(c).unwrap().parent, b);
    let text = s.element(c).unwrap().children[0];
    assert_eq!(s.attach_plan(), vec![(0, a), (a, b), (b, c), (c, text)]);
    // the whole chain is now under `a`: putting `a` below it is refused
    s.append_node(text, a);
    assert_eq!(s.element(a).unwrap().parent, 0);
    assert_eq!(s.element(text).unwrap().children.len(), 0);
}

#[test]
fn whitespace_needs_no_room_and_changes_nothing() {
    let mut s = Sink::new();
    let p = s.create_element(tag("p"), vec![]);
    s.append_text(p, "\t\n ".to_string());
    s.append_text(p, String::new());
    assert_eq!(s.elements.len(), 1);
    assert_eq!(s.next_id, 3);
    assert_eq!(s.element(p).unwrap().children.len(), 0);
}
