use vstd::prelude::*;

verus! {

/// Mathematical model of a markup tree: strings as character sequences and
/// attributes as an ordered sequence of key/value pairs.
pub enum Node {
    Empty,
    Group(Seq<Node>),
    Comment(Seq<char>),
    Text(Seq<char>),
    Tag {
        decl: bool,
        name: Seq<char>,
        attrs: Seq<(Seq<char>, Seq<char>)>,
        children: Option<Seq<Node>>,
    },
}

/// A node of a markup tree.
///
/// `Tag` with `children == None` is a void element: it is written without a
/// closing tag. `Some` of an empty list still gets one.
pub enum Element {
    Empty,
    Wrapper(Vec<Element>),
    Comment(String),
    Text(String),
    Tag {
        decl: bool,
        tag: String,
        attrs: Vec<(String, String)>,
        children: Option<Vec<Element>>,
    },
}

/// The model of an attribute list.
pub open spec fn attrs_view(a: Seq<(String, String)>) -> Seq<(Seq<char>, Seq<char>)> {
    Seq::new(a.len(), |i: int| (a[i].0@, a[i].1@))
}

/// The model of a node.
pub open spec fn node_of(e: &Element) -> Node
    decreases e,
{
    match e {
        Element::Empty => Node::Empty,
        Element::Wrapper(ch) => Node::Group(nodes_of(ch@)),
        Element::Comment(s) => Node::Comment(s@),
        Element::Text(s) => Node::Text(s@),
        Element::Tag { decl, tag, attrs, children } => Node::Tag {
            decl: *decl,
            name: tag@,
            attrs: attrs_view(attrs@),
            children: match children {
                Option::Some(ch) => Option::Some(nodes_of(ch@)),
                Option::None => Option::None,
            },
        },
    }
}

/// The models of a list of nodes, in order.
pub open spec fn nodes_of(s: Seq<Element>) -> Seq<Node>
    decreases s,
{
    if s.len() == 0 {
        Seq::empty()
    } else {
        nodes_of(s.subrange(0, s.len() - 1)).push(node_of(&s[s.len() - 1]))
    }
}

/// How many levels of tags a node nests; each level indents by two.
pub open spec fn depth(n: Node) -> nat
    decreases n,
{
    match n {
        Node::Group(ch) => depth_list(ch),
        Node::Tag { children: Option::Some(ch), .. } => 1 + depth_list(ch),
        _ => 0,
    }
}

/// The largest depth among `s`.
pub open spec fn depth_list(s: Seq<Node>) -> nat
    decreases s,
{
    if s.len() == 0 {
        0
    } else {
        let a = depth_list(s.subrange(0, s.len() - 1));
        let b = depth(s[s.len() - 1]);
        if a >= b {
            a
        } else {
            b
        }
    }
}

pub proof fn lemma_depth_list(s: Seq<Node>, i: int)
    requires
        0 <= i < s.len(),
    ensures
        depth(s[i]) <= depth_list(s),
    decreases s.len(),
{
    if i < s.len() - 1 {
        let p = s.subrange(0, s.len() - 1);
        lemma_depth_list(p, i);
        assert(p[i] == s[i]);
    }
}

pub proof fn lemma_nodes_of(s: Seq<Element>)
    ensures
        nodes_of(s).len() == s.len(),
        forall|i: int| 0 <= i < s.len() ==> #[trigger] nodes_of(s)[i] == s[i]@,
    decreases s.len(),
{
    if s.len() > 0 {
        let p = s.subrange(0, s.len() - 1);
        lemma_nodes_of(p);
        assert forall|i: int| 0 <= i < s.len() implies #[trigger] nodes_of(s)[i] == s[i]@ by {
            if i < s.len() - 1 {
                assert(p[i] == s[i]);
            }
        }
    }
}

impl View for Element {
    type V = Node;

    open spec fn view(&self) -> Node {
        node_of(self)
    }
}

/// A copy of the attribute list `a`.
pub fn copy_attrs(a: &Vec<(String, String)>) -> (r: Vec<(String, String)>)
    ensures
        attrs_view(r@) == attrs_view(a@),
{
    let mut r: Vec<(String, String)> = Vec::new();
    let mut i: usize = 0;
    while i < a.len()
        invariant
            i <= a.len(),
            r.len() == i,
            forall|j: int| 0 <= j < i ==> (#[trigger] r@[j]).0@ == a@[j].0@ && r@[j].1@ == a@[j].1@,
        decreases a.len() - i,
    {
        r.push((a[i].0.clone(), a[i].1.clone()));
        i += 1;
    }
    assert(attrs_view(r@) =~= attrs_view(a@));
    r
}

proof fn lemma_nodes_of_same(a: Seq<Element>, b: Seq<Element>)
    requires
        a.len() == b.len(),
        forall|j: int| 0 <= j < a.len() ==> (#[trigger] a[j])@ == b[j]@,
    ensures
        nodes_of(a) == nodes_of(b),
{
    lemma_nodes_of(a);
    lemma_nodes_of(b);
    assert(nodes_of(a) =~= nodes_of(b));
}

/// A copy of the node list `v`.
pub fn copy_list(v: &Vec<Element>) -> (r: Vec<Element>)
    ensures
        nodes_of(r@) == nodes_of(v@),
    decreases v, 0nat,
{
    let mut r: Vec<Element> = Vec::new();
    let mut i: usize = 0;
    while i < v.len()
        invariant
            i <= v.len(),
            r.len() == i,
            forall|j: int| 0 <= j < i ==> (#[trigger] r@[j])@ == v@[j]@,
        decreases v.len() - i,
    {
        proof {
            assert(decreases_to!(v => v[i as int]));
        }
        r.push(v[i].copy());
        i += 1;
    }
    proof {
        lemma_nodes_of_same(r@, v@);
    }
    r
}

impl Element {
    /// A deep copy of this node: equal to it, sharing nothing with it.
    pub fn copy(&self) -> (r: Element)
        ensures
            r@ == self@,
        decreases self, 1nat,
    {
        match self {
            Element::Empty => Element::Empty,
            Element::Wrapper(ch) => Element::Wrapper(copy_list(ch)),
            Element::Comment(s) => Element::Comment(s.clone()),
            Element::Text(s) => Element::Text(s.clone()),
            Element::Tag { decl, tag, attrs, children } => Element::Tag {
                decl: *decl,
                tag: tag.clone(),
                attrs: copy_attrs(attrs),
                children: match children {
                    Option::Some(ch) => Option::Some(copy_list(ch)),
                    Option::None => Option::None,
                },
            },
        }
    }
}

} // verus!
