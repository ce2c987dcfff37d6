use tela_html::{debug, display, escape, etype, Element, IntoAttrs, Producer, Type};

fn no_attrs() -> Option<&'static [(&'static str, &'static str)]> {
    None
}

fn void(name: &str) -> Element {
    Element::tag(false, name, no_attrs(), ())
}

fn render(e: &Element) -> Option<String> {
    display(e, 0, false)
}

#[test]
fn empty_renders_nothing() {
    assert_eq!(display(&Element::Empty, 0, false), None);
    assert_eq!(display(&Element::Empty, 4, true), None);
    assert_eq!(debug(&Element::Empty, 0, true), None);
}

#[test]
fn empty_in_group_adds_nothing() {
    let with = Element::wrapper(vec![
        Element::text("a"),
        Element::Empty,
        void("br"),
        Element::Empty,
        Element::text("b"),
    ]);
    let without = Element::wrapper(vec![Element::text("a"), void("br"), Element::text("b")]);
    assert_eq!(render(&with), render(&without));
    assert_eq!(render(&with).unwrap(), "a\n<br />\nb");
}

#[test]
fn empty_first_in_body_adds_nothing() {
    let with = Element::tag(false, "d", no_attrs(), vec![Element::Empty, void("x")]);
    let without = Element::tag(false, "d", no_attrs(), vec![void("x")]);
    assert_eq!(render(&with).unwrap(), "<d>\n  <x />\n</d>");
    assert_eq!(render(&with), render(&without));
}

#[test]
fn void_tag_has_no_closing_tag() {
    assert_eq!(render(&void("br")).unwrap(), "<br />");
    let img = Element::tag(false, "img", [("src", "a.png")], ());
    assert_eq!(render(&img).unwrap(), "<img src=\"a.png\" />");
}

#[test]
fn declaration_does_not_self_close() {
    let doctype = Element::tag(true, "DOCTYPE", [("html", "")], ());
    assert_eq!(render(&doctype).unwrap(), "<!DOCTYPE html>");
    let bare = Element::tag(true, "x", no_attrs(), ());
    assert_eq!(render(&bare).unwrap(), "<!x>");
}

#[test]
fn group_of_texts_concatenates() {
    let g = Element::wrapper(vec![Element::text("a"), Element::text("b"), Element::text("c")]);
    assert_eq!(render(&g).unwrap(), "abc");
    assert_eq!(display(&g, 2, false).unwrap(), "  abc");
}

#[test]
fn group_text_tag_text_breaks_twice() {
    let g = Element::wrapper(vec![Element::text("a"), void("b"), Element::text("c")]);
    let out = render(&g).unwrap();
    assert_eq!(out, "a\n<b />\nc");
    assert_eq!(out.matches('\n').count(), 2);
}

#[test]
fn attributes_normalize_idempotently() {
    let first = [("k", "1"), ("j", "2"), ("k", "3")].into_attrs();
    assert_eq!(
        first,
        vec![("k".to_string(), "3".to_string()), ("j".to_string(), "2".to_string())]
    );
    let again = first.clone().into_attrs();
    assert_eq!(again, first);
}

#[test]
fn attributes_from_each_shape() {
    let pairs: &[(&str, &str)] = &[("a", "1"), ("a", "2")];
    assert_eq!(pairs.into_attrs(), vec![("a".to_string(), "2".to_string())]);
    assert_eq!(Some(pairs).into_attrs(), vec![("a".to_string(), "2".to_string())]);
    assert_eq!(no_attrs().into_attrs(), Vec::<(String, String)>::new());
    assert_eq!(vec![("b", "x")].into_attrs(), vec![("b".to_string(), "x".to_string())]);
}

#[test]
fn paragraph_round_trip() {
    let p = Element::tag(false, "p", no_attrs(), vec![Element::text("hi")]);
    assert_eq!(render(&p).unwrap(), "<p>hi</p>");
    assert_eq!(p.to_string(), "<p>hi</p>");
}

#[test]
fn div_with_two_tags_is_a_block() {
    let div = Element::tag(false, "div", no_attrs(), vec![void("a"), void("b")]);
    assert_eq!(render(&div).unwrap(), "<div>\n  <a />\n  <b />\n</div>");
}

#[test]
fn nested_blocks_indent_by_two() {
    let p = Element::tag(false, "p", no_attrs(), "t");
    let section = Element::tag(false, "section", no_attrs(), p);
    let div = Element::tag(false, "div", no_attrs(), section);
    assert_eq!(
        render(&div).unwrap(),
        "<div>\n  <section>\n    <p>t</p>\n  </section>\n</div>"
    );
}

#[test]
fn text_beside_tag_stands_on_its_line() {
    let div = Element::tag(false, "div", no_attrs(), vec![Element::text("hi"), void("br")]);
    assert_eq!(render(&div).unwrap(), "<div>\n  hi\n  <br />\n</div>");
}

#[test]
fn comments_follow_the_switch() {
    let c = Element::comment("note");
    assert_eq!(display(&c, 0, false), None);
    assert_eq!(display(&c, 0, true).unwrap(), "<!-- note -->");
    assert_eq!(display(&c, 2, true).unwrap(), "  <!-- note -->");
    assert_eq!(debug(&c, 0, false), None);
    assert_eq!(debug(&c, 0, true).unwrap(), "Comment(4)");
}

#[test]
fn dump_shows_lengths_not_text() {
    assert_eq!(debug(&Element::text("héllo"), 0, false).unwrap(), "Text(6)");
    assert_eq!(debug(&Element::text("secret"), 2, false).unwrap(), "  Text(6)");
    let d = debug(&Element::text("secret"), 0, false).unwrap();
    assert!(!d.contains("secret"));
    assert_eq!(Element::text("").dump(), "Text(0)");
}

#[test]
fn dump_of_tags() {
    let p = Element::tag(false, "p", [("id", "x")], "hi");
    assert_eq!(debug(&p, 0, false).unwrap(), "Element::p { id: \"x\" }\n  Text(2)");
    let two = Element::tag(false, "a", [("x", "1"), ("y", "2")], ());
    assert_eq!(two.dump(), "Element::a { x: \"1\", y: \"2\" }");
    let three = Element::tag(false, "i", [("a", "1"), ("b", "2"), ("c", "3")], ());
    assert_eq!(
        three.dump(),
        "Element::i {\n   a: \"1\",\n   b: \"2\",\n   c: \"3\",\n }"
    );
    let decl = Element::tag(true, "DOCTYPE", no_attrs(), ());
    assert_eq!(decl.dump(), "Element::!DOCTYPE");
    let quoted = Element::tag(false, "q", [("t", "a\"b")], ());
    assert_eq!(quoted.dump(), "Element::q { t: \"a\\\"b\" }");
}

#[test]
fn dump_of_groups() {
    let g = Element::wrapper(vec![Element::text("ab"), Element::Empty, Element::text("c")]);
    assert_eq!(debug(&g, 0, false).unwrap(), "\nText(2)\nText(1)");
    let nested = Element::tag(false, "ul", no_attrs(), vec![void("li"), Element::comment("c")]);
    assert_eq!(debug(&nested, 0, true).unwrap(), "Element::ul\n  Element::li\n  Comment(1)");
    assert_eq!(debug(&nested, 0, false).unwrap(), "Element::ul\n  Element::li");
    let none = Element::tag(false, "ul", no_attrs(), Vec::<Element>::new());
    assert_eq!(none.dump(), "Element::ul");
}

#[test]
fn attribute_values_are_escaped() {
    let a = Element::tag(false, "a", [("href", "/x"), ("title", "a\"b<")], "go");
    assert_eq!(render(&a).unwrap(), "<a href=\"/x\" title=\"a&quot;b&lt;\">go</a>");
    let input = Element::tag(false, "input", [("disabled", "")], ());
    assert_eq!(render(&input).unwrap(), "<input disabled />");
}

#[test]
fn text_children_are_escaped() {
    let p = Element::tag(false, "p", no_attrs(), "a<b & 'c'");
    assert_eq!(render(&p).unwrap(), "<p>a&lt;b &amp; &#39;c&#39;</p>");
    let s = Element::tag(false, "p", no_attrs(), String::from("\"x>\""));
    assert_eq!(render(&s).unwrap(), "<p>&quot;x&gt;&quot;</p>");
    assert_eq!(escape("<>"), "&lt;&gt;");
}

#[test]
fn number_and_producer_children() {
    let td = Element::tag(false, "td", no_attrs(), 42usize);
    assert_eq!(render(&td).unwrap(), "<td>42</td>");
    let ul = Element::tag(false, "ul", no_attrs(), Producer(|| Element::text("x")));
    assert_eq!(render(&ul).unwrap(), "<ul>x</ul>");
    let opt = Element::tag(false, "b", no_attrs(), Some(vec![Element::text("y")]));
    assert_eq!(render(&opt).unwrap(), "<b>y</b>");
    let unset: Option<Vec<Element>> = None;
    let hr = Element::tag(false, "hr", no_attrs(), unset);
    assert_eq!(render(&hr).unwrap(), "<hr />");
}

#[test]
fn empty_child_list_still_closes() {
    let p = Element::tag(false, "p", no_attrs(), Vec::<Element>::new());
    assert_eq!(render(&p).unwrap(), "<p></p>");
}

#[test]
fn text_body_is_trimmed() {
    let p = Element::tag(false, "p", no_attrs(), vec![Element::text("  hi "), Element::text(" there  ")]);
    assert_eq!(render(&p).unwrap(), "<p>hi  there</p>");
    let g = Element::wrapper(vec![Element::text("  x")]);
    assert_eq!(display(&g, 1, false).unwrap(), " x");
}

#[test]
fn offsets_indent_the_first_line() {
    let p = Element::tag(false, "p", no_attrs(), "hi");
    assert_eq!(display(&p, 4, false).unwrap(), "    <p>hi</p>");
    assert_eq!(display(&Element::text("t"), 3, false).unwrap(), "   t");
}

#[test]
fn classes_of_nodes() {
    assert_eq!(etype(&Element::text("a")), Type::Text);
    assert_eq!(etype(&void("a")), Type::Other);
    assert_eq!(etype(&Element::comment("a")), Type::Other);
    assert_eq!(etype(&Element::Empty), Type::Other);
}

#[test]
fn copies_render_alike() {
    let div = Element::tag(false, "div", [("id", "m")], vec![Element::text("a"), void("b")]);
    let c = div.copy();
    assert_eq!(render(&c), render(&div));
    assert_eq!(c.dump(), div.dump());
}

#[test]
fn empty_child_makes_a_text_body_a_block() {
    let p = Element::tag(false, "p", no_attrs(), vec![Element::text("hi"), Element::Empty]);
    assert_eq!(render(&p).unwrap(), "<p>\n  hi\n</p>");
}
