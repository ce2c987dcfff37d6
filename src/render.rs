use vstd::prelude::*;

use crate::node::{Element, Node, nodes_of, attrs_view, depth, depth_list, lemma_depth_list, lemma_nodes_of};
use crate::text::{spaces, escape_of, trim_start_of, trim_of, spaces_string, escape, trim_start_string, trim_end_string};

verus! {

/// The run-formatting class of a node: text merges with the text beside it,
/// anything else stands on a line of its own.
#[derive(PartialEq, Eq, Structural, Clone, Copy, Debug)]
pub enum Type {
    Text,
    Other,
}

/// The model of an optional string.
pub open spec fn opt_view(o: Option<String>) -> Option<Seq<char>> {
    match o {
        Option::Some(s) => Option::Some(s@),
        Option::None => Option::None,
    }
}

/// What an attribute adds after its key: `="v"` with the value escaped, or
/// nothing for an empty value (a boolean attribute such as `disabled`).
pub open spec fn attr_value_of(v: Seq<char>) -> Seq<char> {
    if v.len() == 0 {
        Seq::empty()
    } else {
        seq!['=', '"'] + escape_of(v) + seq!['"']
    }
}

/// Each attribute as ` key="value"`, in order.
pub open spec fn attrs_text(a: Seq<(Seq<char>, Seq<char>)>) -> Seq<char>
    decreases a.len(),
{
    if a.len() == 0 {
        Seq::empty()
    } else {
        let (k, v) = a.last();
        attrs_text(a.drop_last()) + seq![' '] + k + attr_value_of(v)
    }
}

/// Whether the children of a tag are all text (a void tag counts as such).
pub open spec fn all_text(children: Option<Seq<Node>>) -> bool {
    match children {
        Option::None => true,
        Option::Some(ch) => forall|i: int| 0 <= i < ch.len() ==> (#[trigger] ch[i]) is Text,
    }
}

/// The opening tag, indented by `off`.
pub open spec fn open_tag(
    off: nat,
    decl: bool,
    name: Seq<char>,
    attrs: Seq<(Seq<char>, Seq<char>)>,
    void: bool,
) -> Seq<char> {
    spaces(off) + seq!['<'] + (if decl { seq!['!'] } else { Seq::empty() }) + name + attrs_text(
        attrs,
    ) + (if void && !decl { seq![' ', '/'] } else { Seq::empty() }) + seq!['>']
}

/// The closing tag: none for a void tag; indented by `off` when the body
/// stands on lines of its own.
pub open spec fn close_tag(off: nat, name: Seq<char>, children: Option<Seq<Node>>) -> Seq<char> {
    match children {
        Option::None => Seq::empty(),
        Option::Some(ch) => (if ch.len() > 0 && !all_text(children) {
            spaces(off)
        } else {
            Seq::empty()
        }) + seq!['<', '/'] + name + seq!['>'],
    }
}

/// The canonical markup of `n` indented by `off`; `None` when it writes nothing.
/// Comments are written only where `comments` holds.
pub open spec fn render_node(n: Node, off: nat, comments: bool) -> Option<Seq<char>>
    decreases n, 0nat,
{
    match n {
        Node::Empty => Option::None,
        Node::Group(ch) => Option::Some(
            spaces(off) + trim_start_of(run(ch, off, comments, false).0),
        ),
        Node::Text(t) => Option::Some(spaces(off) + t),
        Node::Comment(t) => if comments {
            Option::Some(spaces(off) + seq!['<', '!', '-', '-', ' '] + t + seq![' ', '-', '-', '>'])
        } else {
            Option::None
        },
        Node::Tag { decl, name, attrs, children } => {
            let body = match children {
                Option::Some(ch) => body_of(ch, off, comments),
                Option::None => Seq::empty(),
            };
            Option::Some(
                open_tag(off, decl, name, attrs, children is None) + body + close_tag(
                    off,
                    name,
                    children,
                ),
            )
        },
    }
}

/// The siblings `s` written one after another at indent `off`, with whether the
/// last one written was text and whether any was written.
///
/// A text node that follows written text is joined to it with no indent; any
/// other node starts a new line at `off`. In a tag's body (`body`) the first
/// node written gets no line break before it.
pub open spec fn run(s: Seq<Node>, off: nat, comments: bool, body: bool) -> (Seq<char>, bool, bool)
    decreases s, 0nat,
{
    if s.len() == 0 {
        (Seq::empty(), false, false)
    } else {
        let prev = run(s.subrange(0, s.len() - 1), off, comments, body);
        let x = s[s.len() - 1];
        let inline = x is Text && prev.1;
        match render_node(x, if inline { 0 } else { off }, comments) {
            Option::None => prev,
            Option::Some(t) => (
                prev.0 + (if inline || (body && !prev.2) {
                    Seq::empty()
                } else {
                    seq!['\n']
                }) + t,
                x is Text,
                true,
            ),
        }
    }
}

/// The class of a node for run formatting.
pub fn etype(element: &Element) -> (r: Type)
    ensures
        (r == Type::Text) == (element@ is Text),
{
    match element {
        Element::Text(_) => Type::Text,
        _ => Type::Other,
    }
}

/// What an attribute with value `v` adds after its key.
pub fn attr_value(v: &str) -> (r: String)
    ensures
        r@ == attr_value_of(v@),
{
    if v.is_empty() {
        return String::new();
    }
    proof {
        reveal_strlit("=\"");
        reveal_strlit("\"");
    }
    let mut r = String::from_str("=\"");
    let e = escape(v);
    r.append(e.as_str());
    r.append("\"");
    r
}

fn push_attrs(out: &mut String, attrs: &Vec<(String, String)>)
    ensures
        final(out)@ == old(out)@ + attrs_text(attrs_view(attrs@)),
{
    let ghost a = attrs_view(attrs@);
    let mut i: usize = 0;
    while i < attrs.len()
        invariant
            i <= attrs.len(),
            a == attrs_view(attrs@),
            out@ == old(out)@ + attrs_text(a.subrange(0, i as int)),
        decreases attrs.len() - i,
    {
        proof {
            reveal_strlit(" ");
        }
        out.append(" ");
        out.append(attrs[i].0.as_str());
        let v = attr_value(attrs[i].1.as_str());
        out.append(v.as_str());
        proof {
            let p = a.subrange(0, i + 1);
            assert(p.drop_last() =~= a.subrange(0, i as int));
            assert(p.last() == a[i as int]);
            assert(out@ =~= old(out)@ + attrs_text(p));
        }
        i += 1;
    }
    assert(a.subrange(0, attrs.len() as int) =~= a);
}

fn children_all_text(ch: &Vec<Element>) -> (r: bool)
    ensures
        r == all_text(Option::Some(nodes_of(ch@))),
{
    proof {
        lemma_nodes_of(ch@);
    }
    let mut i: usize = 0;
    while i < ch.len()
        invariant
            i <= ch.len(),
            nodes_of(ch@).len() == ch.len(),
            forall|j: int| 0 <= j < ch.len() ==> #[trigger] nodes_of(ch@)[j] == ch@[j]@,
            forall|j: int| 0 <= j < i ==> (#[trigger] nodes_of(ch@)[j]) is Text,
        decreases ch.len() - i,
    {
        if etype(&ch[i]) != Type::Text {
            assert(!(nodes_of(ch@)[i as int] is Text));
            return false;
        }
        i += 1;
    }
    true
}

/// Writes the siblings `children` at indent `offset`, as [`run`] says.
fn display_run(children: &Vec<Element>, offset: usize, comments: bool, body: bool) -> (r: String)
    requires
        offset + 2 * depth_list(nodes_of(children@)) <= usize::MAX,
    ensures
        r@ == run(nodes_of(children@), offset as nat, comments, body).0,
    decreases children, 0nat,
{
    let ghost ns = nodes_of(children@);
    proof {
        lemma_nodes_of(children@);
    }
    let mut out = String::new();
    let mut prev_text = false;
    let mut emitted = false;
    let mut i: usize = 0;
    while i < children.len()
        invariant
            i <= children.len(),
            ns == nodes_of(children@),
            ns.len() == children.len(),
            forall|j: int| 0 <= j < children.len() ==> #[trigger] ns[j] == children@[j]@,
            offset + 2 * depth_list(ns) <= usize::MAX,
            (out@, prev_text, emitted) == run(ns.subrange(0, i as int), offset as nat, comments, body),
        decreases children.len() - i,
    {
        let child = &children[i];
        let is_text = etype(child) == Type::Text;
        let inline = is_text && prev_text;
        proof {
            lemma_depth_list(ns, i as int);
            assert(ns[i as int] == child@);
            assert(decreases_to!(children => children[i as int]));
        }
        let value = if inline {
            display(child, 0, comments)
        } else {
            display(child, offset, comments)
        };
        match value {
            Option::Some(t) => {
                if !(inline || (body && !emitted)) {
                    proof {
                        reveal_strlit("\n");
                    }
                    out.append("\n");
                }
                out.append(t.as_str());
                prev_text = is_text;
                emitted = true;
            },
            Option::None => {},
        }
        proof {
            let p = ns.subrange(0, i + 1);
            assert(p.subrange(0, i as int) =~= ns.subrange(0, i as int));
            assert(p[i as int] == ns[i as int]);
            assert(out@ =~= run(p, offset as nat, comments, body).0);
        }
        i += 1;
    }
    assert(ns.subrange(0, children.len() as int) =~= ns);
    out
}

/// The body of a tag with children `ch`, as [`render_node`] writes it.
pub open spec fn body_of(ch: Seq<Node>, off: nat, comments: bool) -> Seq<char>
    decreases ch, 1nat,
{
    if ch.len() > 0 {
        let r = run(ch, off + 2, comments, true).0;
        if all_text(Option::Some(ch)) {
            trim_of(r)
        } else {
            seq!['\n'] + r + seq!['\n']
        }
    } else {
        Seq::empty()
    }
}

/// Writes a tag: opening tag, body and closing tag, as [`render_node`] says.
fn display_tag(element: &Element, offset: usize, comments: bool) -> (r: String)
    requires
        element is Tag,
        offset + 2 * depth(element@) <= usize::MAX,
    ensures
        Option::Some(r@) == render_node(element@, offset as nat, comments),
    decreases element, 0nat,
{
    proof {
        reveal_strlit("<");
        reveal_strlit("!");
        reveal_strlit(" /");
        reveal_strlit(">");
        reveal_strlit("</");
    }
    let Element::Tag { decl, tag, attrs, children } = element else { return String::new() };
    let void = children.is_none();
    let mut out = spaces_string(offset);
    out.append("<");
    if *decl {
        out.append("!");
    }
    out.append(tag.as_str());
    push_attrs(&mut out, attrs);
    if void && !*decl {
        out.append(" /");
    }
    out.append(">");
    let ghost open = out@;
    assert(open =~= open_tag(offset as nat, *decl, tag@, attrs_view(attrs@), void));
    match children {
        Option::None => {
            assert(out@ =~= render_node(element@, offset as nat, comments)->0);
        },
        Option::Some(ch) => {
            let ghost cn = nodes_of(ch@);
            let body = display_body(ch, offset, comments);
            out.append(body.as_str());
            let all = children_all_text(ch);
            if ch.len() > 0 && !all {
                let pad = spaces_string(offset);
                out.append(pad.as_str());
            }
            out.append("</");
            out.append(tag.as_str());
            out.append(">");
            proof {
                lemma_nodes_of(ch@);
                assert(out@ =~= open + body_of(cn, offset as nat, comments) + close_tag(
                    offset as nat,
                    tag@,
                    Option::Some(cn),
                ));
            }
        },
    }
    out
}

/// Writes a tag's body, as [`body_of`] says.
fn display_body(ch: &Vec<Element>, offset: usize, comments: bool) -> (r: String)
    requires
        offset + 2 + 2 * depth_list(nodes_of(ch@)) <= usize::MAX,
    ensures
        r@ == body_of(nodes_of(ch@), offset as nat, comments),
    decreases ch, 1nat,
{
    proof {
        reveal_strlit("\n");
        lemma_nodes_of(ch@);
    }
    if ch.len() == 0 {
        return String::new();
    }
    let joined = display_run(ch, offset + 2, comments, true);
    let all = children_all_text(ch);
    if all {
        let t1 = trim_start_string(joined.as_str());
        trim_end_string(t1.as_str())
    } else {
        let mut out = String::from_str("\n");
        out.append(joined.as_str());
        out.append("\n");
        out
    }
}

/// The canonical markup of `element`, indented by `offset` spaces; `None` when
/// it writes nothing. Comments are written only where `comments` holds.
pub fn display(element: &Element, offset: usize, comments: bool) -> (r: Option<String>)
    requires
        offset + 2 * depth(element@) <= usize::MAX,
    ensures
        opt_view(r) == render_node(element@, offset as nat, comments),
    decreases element, 1nat,
{
    match element {
        Element::Empty => Option::None,
        Element::Wrapper(ch) => {
            let joined = display_run(ch, offset, comments, false);
            let mut out = spaces_string(offset);
            let t = trim_start_string(joined.as_str());
            out.append(t.as_str());
            Option::Some(out)
        },
        Element::Text(t) => {
            let mut out = spaces_string(offset);
            out.append(t.as_str());
            Option::Some(out)
        },
        Element::Comment(t) => {
            if comments {
                proof {
                    reveal_strlit("<!-- ");
                    reveal_strlit(" -->");
                }
                let mut out = spaces_string(offset);
                out.append("<!-- ");
                out.append(t.as_str());
                out.append(" -->");
                Option::Some(out)
            } else {
                Option::None
            }
        },
        Element::Tag { .. } => Option::Some(display_tag(element, offset, comments)),
    }
}

} // verus!
