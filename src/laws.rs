use vstd::prelude::*;

use crate::dump::{dump_node, utf8_len};
use crate::node::Node;
use crate::render::{all_text, attrs_text, body_of, close_tag, open_tag, render_node, run};
use crate::text::{is_white_space, spaces, trim_start_of};

verus! {

/// An empty node writes nothing, in either form.
pub proof fn lemma_empty_writes_nothing(off: nat, comments: bool)
    ensures
        render_node(Node::Empty, off, comments) is None,
        dump_node(Node::Empty, off, comments) is None,
{
}

/// An empty node among siblings adds nothing to what they write.
pub proof fn lemma_run_skips_empty(
    a: Seq<Node>,
    b: Seq<Node>,
    off: nat,
    comments: bool,
    body: bool,
)
    ensures
        run(a + seq![Node::Empty] + b, off, comments, body) == run(a + b, off, comments, body),
    decreases b.len(),
{
    let s1 = a + seq![Node::Empty] + b;
    let s2 = a + b;
    if b.len() == 0 {
        assert(s1.subrange(0, s1.len() - 1) =~= a);
        assert(s1[s1.len() - 1] == Node::Empty);
        assert(render_node(Node::Empty, off, comments) is None);
        assert(s2 =~= a);
    } else {
        let bp = b.subrange(0, b.len() - 1);
        lemma_run_skips_empty(a, bp, off, comments, body);
        assert(s1.subrange(0, s1.len() - 1) =~= a + seq![Node::Empty] + bp);
        assert(s2.subrange(0, s2.len() - 1) =~= a + bp);
        assert(s1[s1.len() - 1] == s2[s2.len() - 1]);
    }
}

/// An empty node in a group adds nothing to what the group writes.
pub proof fn lemma_group_skips_empty(a: Seq<Node>, b: Seq<Node>, off: nat, comments: bool)
    ensures
        render_node(Node::Group(a + seq![Node::Empty] + b), off, comments) == render_node(
            Node::Group(a + b),
            off,
            comments,
        ),
{
    lemma_run_skips_empty(a, b, off, comments, false);
}

/// An empty node in a tag's body adds nothing to what the tag writes, where
/// the body holds a node other than text (else the empty node would turn a
/// body of text alone into a block).
pub proof fn lemma_tag_skips_empty(
    decl: bool,
    name: Seq<char>,
    attrs: Seq<(Seq<char>, Seq<char>)>,
    a: Seq<Node>,
    b: Seq<Node>,
    off: nat,
    comments: bool,
)
    requires
        exists|i: int| 0 <= i < (a + b).len() && !((#[trigger] (a + b)[i]) is Text),
    ensures
        render_node(
            Node::Tag { decl, name, attrs, children: Option::Some(a + seq![Node::Empty] + b) },
            off,
            comments,
        ) == render_node(
            Node::Tag { decl, name, attrs, children: Option::Some(a + b) },
            off,
            comments,
        ),
{
    let s1 = a + seq![Node::Empty] + b;
    lemma_run_skips_empty(a, b, off + 2, comments, true);
    assert(!(s1[a.len() as int] is Text));
    assert(!all_text(Option::Some(s1)));
    assert(!all_text(Option::Some(a + b)));
}

/// A void tag has no closing tag: it writes its opening tag and nothing more.
pub proof fn lemma_void_tag_not_closed(
    decl: bool,
    name: Seq<char>,
    attrs: Seq<(Seq<char>, Seq<char>)>,
    off: nat,
    comments: bool,
)
    ensures
        render_node(Node::Tag { decl, name, attrs, children: Option::None }, off, comments)
            == Option::Some(open_tag(off, decl, name, attrs, true)),
{
    assert(open_tag(off, decl, name, attrs, true) + Seq::<char>::empty() + Seq::<char>::empty()
        =~= open_tag(off, decl, name, attrs, true));
}

/// A declaration never closes itself with `/>`: its opening tag ends with `>`
/// right after the attributes, and a void declaration writes that alone.
pub proof fn lemma_declaration_not_self_closed(
    name: Seq<char>,
    attrs: Seq<(Seq<char>, Seq<char>)>,
    children: Option<Seq<Node>>,
    off: nat,
    comments: bool,
)
    ensures
        ({
            let o = spaces(off) + seq!['<', '!'] + name + attrs_text(attrs) + seq!['>'];
            let r = render_node(Node::Tag { decl: true, name, attrs, children }, off, comments);
            &&& r is Some
            &&& r->0.len() >= o.len()
            &&& r->0.subrange(0, o.len() as int) == o
            &&& children is None ==> r->0 == o
        }),
{
    let o = spaces(off) + seq!['<', '!'] + name + attrs_text(attrs) + seq!['>'];
    let t = open_tag(off, true, name, attrs, children is None);
    assert(t =~= o);
    let r = render_node(Node::Tag { decl: true, name, attrs, children }, off, comments)->0;
    assert(r.subrange(0, o.len() as int) =~= o);
    if children is None {
        assert(r =~= o);
    }
}

/// The text of a list of text nodes, joined with nothing between.
pub open spec fn concat_texts(s: Seq<Node>) -> Seq<char>
    decreases s.len(),
{
    if s.len() == 0 {
        Seq::empty()
    } else {
        concat_texts(s.drop_last()) + s.last()->Text_0
    }
}

proof fn lemma_run_texts(s: Seq<Node>, off: nat, comments: bool)
    requires
        forall|i: int| 0 <= i < s.len() ==> (#[trigger] s[i]) is Text,
    ensures
        run(s, off, comments, false) == if s.len() == 0 {
            (Seq::<char>::empty(), false, false)
        } else {
            (seq!['\n'] + spaces(off) + concat_texts(s), true, true)
        },
    decreases s.len(),
{
    if s.len() > 0 {
        let p = s.subrange(0, s.len() - 1);
        assert(p =~= s.drop_last());
        assert forall|i: int| 0 <= i < p.len() implies (#[trigger] p[i]) is Text by {
            assert(p[i] == s[i]);
        }
        lemma_run_texts(p, off, comments);
        let x = s[s.len() - 1];
        assert(x is Text);
        assert(render_node(x, off, comments) == Option::Some(spaces(off) + x->Text_0));
        assert(render_node(x, 0, comments) == Option::Some(spaces(0) + x->Text_0));
        if s.len() == 1 {
            assert(run(s, off, comments, false).0 =~= seq!['\n'] + spaces(off) + concat_texts(s));
        } else {
            assert(spaces(0) =~= Seq::<char>::empty());
            assert(run(s, off, comments, false).0 =~= seq!['\n'] + spaces(off) + concat_texts(s));
        }
    }
}

/// White space in front of `x` is trimmed away with that of `x`.
pub proof fn lemma_trim_start_white(w: Seq<char>, x: Seq<char>)
    requires
        forall|i: int| 0 <= i < w.len() ==> is_white_space(#[trigger] w[i]),
    ensures
        trim_start_of(w + x) == trim_start_of(x),
    decreases w.len(),
{
    if w.len() > 0 {
        assert((w + x)[0] == w[0]);
        assert((w + x).drop_first() =~= w.drop_first() + x);
        let d = w.drop_first();
        assert forall|i: int| 0 <= i < d.len() implies is_white_space(#[trigger] d[i]) by {
            assert(d[i] == w[i + 1]);
        }
        lemma_trim_start_white(d, x);
    }
}

proof fn lemma_line_break_white(off: nat)
    ensures
        forall|i: int|
            0 <= i < (seq!['\n'] + spaces(off)).len() ==> is_white_space(
                #[trigger] (seq!['\n'] + spaces(off))[i],
            ),
{
    assert forall|i: int| 0 <= i < (seq!['\n'] + spaces(off)).len() implies is_white_space(
        #[trigger] (seq!['\n'] + spaces(off))[i],
    ) by {
        if i > 0 {
            assert((seq!['\n'] + spaces(off))[i] == ' ');
        } else {
            assert((seq!['\n'] + spaces(off))[i] == '\n');
        }
    }
}

/// A group of text nodes alone writes their texts joined with nothing between,
/// once, at its indent.
pub proof fn lemma_group_of_texts(s: Seq<Node>, off: nat, comments: bool)
    requires
        forall|i: int| 0 <= i < s.len() ==> (#[trigger] s[i]) is Text,
    ensures
        render_node(Node::Group(s), off, comments) == Option::Some(
            spaces(off) + trim_start_of(concat_texts(s)),
        ),
{
    lemma_run_texts(s, off, comments);
    lemma_line_break_white(off);
    lemma_trim_start_white(seq!['\n'] + spaces(off), concat_texts(s));
    if s.len() > 0 {
        assert(seq!['\n'] + spaces(off) + concat_texts(s) =~= (seq!['\n'] + spaces(off))
            + concat_texts(s));
    }
}

/// In a group, a tag between two texts stands on a line of its own: a line
/// break comes before it and another after it.
pub proof fn lemma_group_text_tag_text(
    a: Seq<char>,
    x: Node,
    b: Seq<char>,
    off: nat,
    comments: bool,
)
    requires
        x is Tag,
    ensures
        render_node(x, off, comments) is Some,
        render_node(Node::Group(seq![Node::Text(a), x, Node::Text(b)]), off, comments)
            == Option::Some(
            spaces(off) + trim_start_of(
                a + seq!['\n'] + render_node(x, off, comments)->0 + seq!['\n'] + spaces(off) + b,
            ),
        ),
{
    let s = seq![Node::Text(a), x, Node::Text(b)];
    let s2 = s.subrange(0, 2);
    let s1 = s2.subrange(0, 1);
    assert(s2 =~= seq![Node::Text(a), x]);
    assert(s1 =~= seq![Node::Text(a)]);
    assert(s1.subrange(0, 0) =~= Seq::<Node>::empty());
    let xr = render_node(x, off, comments)->0;
    assert(run(s1.subrange(0, 0), off, comments, false) == (Seq::<char>::empty(), false, false));
    assert(render_node(Node::Text(a), off, comments) == Option::Some(spaces(off) + a));
    assert(render_node(Node::Text(b), off, comments) == Option::Some(spaces(off) + b));
    let r1 = run(s1, off, comments, false);
    assert(r1.0 =~= seq!['\n'] + spaces(off) + a);
    let r2 = run(s2, off, comments, false);
    assert(r2.0 =~= seq!['\n'] + spaces(off) + a + seq!['\n'] + xr);
    let r3 = run(s, off, comments, false);
    let rest = a + seq!['\n'] + xr + seq!['\n'] + spaces(off) + b;
    assert(r3.0 =~= (seq!['\n'] + spaces(off)) + rest);
    lemma_line_break_white(off);
    lemma_trim_start_white(seq!['\n'] + spaces(off), rest);
}

/// A tag with two tags as children writes its opening tag, each child on a
/// line of its own indented two further, and its closing tag on a line of its
/// own at its indent.
#[verifier::rlimit(40)]
pub proof fn lemma_block_children(name: Seq<char>, x: Node, y: Node, off: nat, comments: bool)
    requires
        x is Tag,
        y is Tag,
    ensures
        render_node(x, off + 2, comments) is Some,
        render_node(y, off + 2, comments) is Some,
        render_node(
            Node::Tag { decl: false, name, attrs: Seq::empty(), children: Option::Some(seq![x, y]) },
            off,
            comments,
        ) == Option::Some(
            spaces(off) + seq!['<'] + name + seq!['>', '\n'] + render_node(x, off + 2, comments)->0
                + seq!['\n'] + render_node(y, off + 2, comments)->0 + seq!['\n'] + spaces(off)
                + seq!['<', '/'] + name + seq!['>'],
        ),
{
    let s = seq![x, y];
    let xr = render_node(x, off + 2, comments)->0;
    let yr = render_node(y, off + 2, comments)->0;
    assert(run(s, off + 2, comments, true).0 == xr + seq!['\n'] + yr) by {
        let s1 = s.subrange(0, 1);
        assert(s1 =~= seq![x]);
        assert(s1.subrange(0, 0) =~= Seq::<Node>::empty());
        assert(run(s1.subrange(0, 0), off + 2, comments, true) == (
            Seq::<char>::empty(),
            false,
            false,
        ));
        assert(run(s1, off + 2, comments, true).0 =~= xr);
        assert(run(s, off + 2, comments, true).0 =~= xr + seq!['\n'] + yr);
    }
    assert(!all_text(Option::Some(s))) by {
        assert(!(s[0] is Text));
    }
    let body = body_of(s, off, comments);
    assert(body =~= seq!['\n'] + xr + seq!['\n'] + yr + seq!['\n']);
    let o = open_tag(off, false, name, Seq::empty(), false);
    assert(o =~= spaces(off) + seq!['<'] + name + seq!['>']) by {
        assert(attrs_text(Seq::empty()) =~= Seq::<char>::empty());
    }
    let c = close_tag(off, name, Option::Some(s));
    assert(c =~= spaces(off) + seq!['<', '/'] + name + seq!['>']);
    let r = render_node(
        Node::Tag { decl: false, name, attrs: Seq::empty(), children: Option::Some(s) },
        off,
        comments,
    )->0;
    assert(r == o + body + c);
    assert(r =~= spaces(off) + seq!['<'] + name + seq!['>', '\n'] + xr + seq!['\n'] + yr + seq![
        '\n',
    ] + spaces(off) + seq!['<', '/'] + name + seq!['>']);
}

/// Comments are written only where they are switched on, as `<!-- text -->`.
pub proof fn lemma_comment_switch(t: Seq<char>, off: nat)
    ensures
        render_node(Node::Comment(t), off, false) is None,
        dump_node(Node::Comment(t), off, false) is None,
        render_node(Node::Comment(t), off, true) == Option::Some(
            spaces(off) + seq!['<', '!', '-', '-', ' '] + t + seq![' ', '-', '-', '>'],
        ),
        dump_node(Node::Comment(t), off, true) is Some,
{
}

/// The dump of a text or a comment shows its length, never its content: two
/// of the same length in bytes dump alike.
pub proof fn lemma_dump_hides_content(t1: Seq<char>, t2: Seq<char>, w: nat, comments: bool)
    requires
        utf8_len(t1) == utf8_len(t2),
    ensures
        dump_node(Node::Text(t1), w, comments) == dump_node(Node::Text(t2), w, comments),
        dump_node(Node::Comment(t1), w, comments) == dump_node(Node::Comment(t2), w, comments),
{
}

} // verus!
