use vstd::prelude::*;

use crate::attrs::{IntoAttrs, normalized, keys_unique};
use crate::node::{Element, Node, nodes_of, copy_list, depth};
use crate::text::{escape_of, decimal_of, escape, decimal};
use crate::render::{display, render_node};
use crate::dump::{debug, dump_node};

verus! {

/// The model of an optional child list.
pub open spec fn children_view(o: Option<Vec<Element>>) -> Option<Seq<Node>> {
    match o {
        Option::Some(v) => Option::Some(nodes_of(v@)),
        Option::None => Option::None,
    }
}

/// Inputs that give a tag's children.
pub trait IntoChildren {
    /// What `into_children` needs of the input.
    spec fn ready(&self) -> bool;

    /// Whether `r` is a child list that the input stands for.
    spec fn gives(&self, r: Option<Seq<Node>>) -> bool;

    /// The child list of the input: `None` for a void tag.
    fn into_children(&self) -> (r: Option<Vec<Element>>)
        requires
            self.ready(),
        ensures
            self.gives(children_view(r)),
    ;
}

/// No value: a void tag.
impl IntoChildren for () {
    open spec fn ready(&self) -> bool {
        true
    }

    open spec fn gives(&self, r: Option<Seq<Node>>) -> bool {
        r is None
    }

    fn into_children(&self) -> (r: Option<Vec<Element>>) {
        Option::None
    }
}

/// A single node: a list of a copy of it.
impl IntoChildren for Element {
    open spec fn ready(&self) -> bool {
        true
    }

    open spec fn gives(&self, r: Option<Seq<Node>>) -> bool {
        r == Option::Some(seq![self@])
    }

    fn into_children(&self) -> (r: Option<Vec<Element>>) {
        let v = vec![self.copy()];
        proof {
            crate::node::lemma_nodes_of(v@);
            assert(nodes_of(v@) =~= seq![self@]);
        }
        Option::Some(v)
    }
}

/// A list of nodes: a copy of it.
impl IntoChildren for Vec<Element> {
    open spec fn ready(&self) -> bool {
        true
    }

    open spec fn gives(&self, r: Option<Seq<Node>>) -> bool {
        r == Option::Some(nodes_of(self@))
    }

    fn into_children(&self) -> (r: Option<Vec<Element>>) {
        Option::Some(copy_list(self))
    }
}

/// An optional list of nodes: a copy of it.
impl IntoChildren for Option<Vec<Element>> {
    open spec fn ready(&self) -> bool {
        true
    }

    open spec fn gives(&self, r: Option<Seq<Node>>) -> bool {
        r == children_view(*self)
    }

    fn into_children(&self) -> (r: Option<Vec<Element>>) {
        match self {
            Option::Some(v) => Option::Some(copy_list(v)),
            Option::None => Option::None,
        }
    }
}

/// Text: one text node holding it escaped.
impl IntoChildren for &str {
    open spec fn ready(&self) -> bool {
        true
    }

    open spec fn gives(&self, r: Option<Seq<Node>>) -> bool {
        r == Option::Some(seq![Node::Text(escape_of(self@))])
    }

    fn into_children(&self) -> (r: Option<Vec<Element>>) {
        text_child(escape(self))
    }
}

/// Text: one text node holding it escaped.
impl IntoChildren for String {
    open spec fn ready(&self) -> bool {
        true
    }

    open spec fn gives(&self, r: Option<Seq<Node>>) -> bool {
        r == Option::Some(seq![Node::Text(escape_of(self@))])
    }

    fn into_children(&self) -> (r: Option<Vec<Element>>) {
        text_child(escape(self.as_str()))
    }
}

/// A number: one text node holding its decimal notation.
impl IntoChildren for usize {
    open spec fn ready(&self) -> bool {
        true
    }

    open spec fn gives(&self, r: Option<Seq<Node>>) -> bool {
        r == Option::Some(seq![Node::Text(decimal_of(*self as nat))])
    }

    fn into_children(&self) -> (r: Option<Vec<Element>>) {
        text_child(decimal(*self))
    }
}

/// A producer of one node, which may be called more than once.
pub struct Producer<F>(pub F);

/// A producer: a list of the node that one call of it gives.
impl<F: Fn() -> Element> IntoChildren for Producer<F> {
    open spec fn ready(&self) -> bool {
        self.0.requires(())
    }

    open spec fn gives(&self, r: Option<Seq<Node>>) -> bool {
        exists|e: Element| self.0.ensures((), e) && r == Option::Some(seq![e@])
    }

    fn into_children(&self) -> (r: Option<Vec<Element>>) {
        let e = (self.0)();
        let v = vec![e];
        proof {
            crate::node::lemma_nodes_of(v@);
            assert(nodes_of(v@) =~= seq![e@]);
        }
        Option::Some(v)
    }
}

fn text_child(t: String) -> (r: Option<Vec<Element>>)
    ensures
        r is Some,
        children_view(r) == Option::Some(seq![Node::Text(t@)]),
{
    let v = vec![Element::Text(t)];
    proof {
        crate::node::lemma_nodes_of(v@);
        assert(nodes_of(v@) =~= seq![Node::Text(t@)]);
    }
    Option::Some(v)
}

impl Element {
    /// A text node holding `text` as it is.
    pub fn text(text: &str) -> (r: Element)
        ensures
            r@ == Node::Text(text@),
    {
        Element::Text(text.to_owned())
    }

    /// A comment node holding `comment`.
    pub fn comment(comment: &str) -> (r: Element)
        ensures
            r@ == Node::Comment(comment@),
    {
        Element::Comment(comment.to_owned())
    }

    /// A group of the nodes `children`, in order.
    pub fn wrapper(children: Vec<Element>) -> (r: Element)
        ensures
            r@ == Node::Group(nodes_of(children@)),
    {
        Element::Wrapper(children)
    }

    /// A tag named `tag`, with the attribute mapping of `attrs` and the child
    /// list of `children`; `decl` makes it a declaration such as `<!DOCTYPE html>`.
    pub fn tag<A: IntoAttrs, C: IntoChildren>(decl: bool, tag: &str, attrs: A, children: C) -> (r:
        Element)
        requires
            children.ready(),
        ensures
            r@ is Tag,
            r@->Tag_decl == decl,
            r@->Tag_name == tag@,
            r@->Tag_attrs == normalized(attrs.attr_pairs()),
            keys_unique(r@->Tag_attrs),
            children.gives(r@->Tag_children),
    {
        let a = attrs.into_attrs();
        let c = children.into_children();
        let r = Element::Tag { decl, tag: tag.to_owned(), attrs: a, children: c };
        assert(r@->Tag_children == children_view(c));
        r
    }

    /// The canonical markup of this node at indent zero, without comments; empty
    /// where it writes nothing.
    pub fn to_string(&self) -> (r: String)
        requires
            2 * depth(self@) <= usize::MAX,
        ensures
            r@ == match render_node(self@, 0, false) {
                Option::Some(s) => s,
                Option::None => Seq::empty(),
            },
    {
        match display(self, 0, false) {
            Option::Some(s) => s,
            Option::None => String::new(),
        }
    }

    /// The structural dump of this node at indent zero, without comments; empty
    /// where it shows nothing.
    pub fn dump(&self) -> (r: String)
        requires
            2 * depth(self@) <= usize::MAX,
        ensures
            r@ == match dump_node(self@, 0, false) {
                Option::Some(s) => s,
                Option::None => Seq::empty(),
            },
    {
        match debug(self, 0, false) {
            Option::Some(s) => s,
            Option::None => String::new(),
        }
    }
}

} // verus!
