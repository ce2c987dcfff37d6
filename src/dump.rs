use vstd::prelude::*;
use vstd::utf8::encode_utf8;

use crate::node::{Element, Node, nodes_of, attrs_view, depth, depth_list, lemma_depth_list, lemma_nodes_of};
use crate::render::opt_view;
use crate::text::{spaces, decimal_of, spaces_string, decimal};

verus! {

/// What `{:?}` writes for a string: the string quoted, with its special
/// characters escaped.
pub uninterp spec fn debug_quoted(s: Seq<char>) -> Seq<char>;

/// Relies on `<str as Debug>::fmt`: the quoted, escaped form of `s`, which
/// depends on `s` alone.
#[verifier::external_body]
fn quoted(s: &str) -> (r: String)
    ensures
        r@ == debug_quoted(s@),
{
    format!("{:?}", s)
}

/// The length in bytes of the UTF-8 encoding of `t`, as `str::len` gives it.
pub open spec fn utf8_len(t: Seq<char>) -> usize {
    encode_utf8(t).len() as usize
}

/// `parts` joined with `sep` between each two.
pub open spec fn join(parts: Seq<Seq<char>>, sep: Seq<char>) -> Seq<char>
    decreases parts.len(),
{
    if parts.len() == 0 {
        Seq::empty()
    } else if parts.len() == 1 {
        parts[0]
    } else {
        join(parts.drop_last(), sep) + sep + parts.last()
    }
}

/// One attribute as `key: "value"`.
pub open spec fn attr_entry(a: (Seq<char>, Seq<char>)) -> Seq<char> {
    a.0 + seq![':', ' '] + debug_quoted(a.1)
}

/// The attribute block of a tag's dump at indent `w`: nothing for no
/// attributes, one line for one or two, one line each for more.
pub open spec fn attrs_block(w: nat, a: Seq<(Seq<char>, Seq<char>)>) -> Seq<char> {
    if a.len() == 0 {
        Seq::empty()
    } else if a.len() <= 2 {
        seq![' ', '{', ' '] + join(Seq::new(a.len(), |i: int| attr_entry(a[i])), seq![',', ' '])
            + seq![' ', '}']
    } else {
        seq![' ', '{', '\n'] + join(
            Seq::new(a.len(), |i: int| spaces(w) + seq![' ', ' ', ' '] + attr_entry(a[i]) + seq![',']),
            seq!['\n'],
        ) + seq!['\n'] + spaces(w) + seq![' ', '}']
    }
}

/// The structural dump of `n` at indent `w`; `None` when it shows nothing.
/// Text and comments show their length in bytes, never their content.
pub open spec fn dump_node(n: Node, w: nat, comments: bool) -> Option<Seq<char>>
    decreases n, 1nat,
{
    match n {
        Node::Empty => Option::None,
        Node::Group(ch) => Option::Some(seq!['\n'] + join(dump_list(ch, w, comments), seq!['\n'])),
        Node::Text(t) => Option::Some(
            spaces(w) + seq!['T', 'e', 'x', 't', '('] + decimal_of(utf8_len(t) as nat) + seq![')'],
        ),
        Node::Comment(t) => if comments {
            Option::Some(
                spaces(w) + seq!['C', 'o', 'm', 'm', 'e', 'n', 't', '('] + decimal_of(
                    utf8_len(t) as nat,
                ) + seq![')'],
            )
        } else {
            Option::None
        },
        Node::Tag { decl, name, attrs, children } => Option::Some(
            spaces(w) + seq!['E', 'l', 'e', 'm', 'e', 'n', 't', ':', ':'] + (if decl {
                seq!['!']
            } else {
                Seq::empty()
            }) + name + attrs_block(w, attrs) + match children {
                Option::Some(ch) => if ch.len() > 0 {
                    seq!['\n'] + join(dump_list(ch, w + 2, comments), seq!['\n'])
                } else {
                    Seq::empty()
                },
                Option::None => Seq::empty(),
            },
        ),
    }
}

/// The dumps of `s` at indent `w`, in order, leaving out those that show nothing.
pub open spec fn dump_list(s: Seq<Node>, w: nat, comments: bool) -> Seq<Seq<char>>
    decreases s, 0nat,
{
    if s.len() == 0 {
        Seq::empty()
    } else {
        let prev = dump_list(s.subrange(0, s.len() - 1), w, comments);
        match dump_node(s[s.len() - 1], w, comments) {
            Option::Some(t) => prev.push(t),
            Option::None => prev,
        }
    }
}

proof fn lemma_join_push(parts: Seq<Seq<char>>, sep: Seq<char>, x: Seq<char>)
    ensures
        join(parts.push(x), sep) == if parts.len() == 0 {
            x
        } else {
            join(parts, sep) + sep + x
        },
{
    assert(parts.push(x).drop_last() =~= parts);
}

fn push_attrs_block(out: &mut String, offset: usize, attrs: &Vec<(String, String)>)
    ensures
        final(out)@ == old(out)@ + attrs_block(offset as nat, attrs_view(attrs@)),
{
    let ghost a = attrs_view(attrs@);
    let n = attrs.len();
    if n == 0 {
        assert(final(out)@ =~= old(out)@ + attrs_block(offset as nat, a));
        return;
    }
    proof {
        reveal_strlit(" { ");
        reveal_strlit(" {\n");
        reveal_strlit(", ");
        reveal_strlit("\n");
        reveal_strlit(": ");
        reveal_strlit("   ");
        reveal_strlit(",");
        reveal_strlit(" }");
    }
    let inline = n <= 2;
    let ghost parts = if inline {
        Seq::new(a.len(), |i: int| attr_entry(a[i]))
    } else {
        Seq::new(a.len(), |i: int| spaces(offset as nat) + seq![' ', ' ', ' '] + attr_entry(a[i]) + seq![','])
    };
    let ghost sep = if inline { seq![',', ' '] } else { seq!['\n'] };
    let pad = spaces_string(offset);
    if inline {
        out.append(" { ");
    } else {
        out.append(" {\n");
    }
    let ghost start = out@;
    let mut i: usize = 0;
    while i < n
        invariant
            i <= n,
            n == attrs.len(),
            inline == (n <= 2),
            pad@ == spaces(offset as nat),
            a == attrs_view(attrs@),
            parts.len() == n,
            parts == (if inline {
                Seq::new(a.len(), |i: int| attr_entry(a[i]))
            } else {
                Seq::new(a.len(), |i: int| spaces(offset as nat) + seq![' ', ' ', ' '] + attr_entry(a[i]) + seq![','])
            }),
            sep == (if inline { seq![',', ' '] } else { seq!['\n'] }),
            out@ == start + join(parts.subrange(0, i as int), sep),
        decreases n - i,
    {
        proof {
            reveal_strlit(", ");
            reveal_strlit("\n");
            reveal_strlit(": ");
            reveal_strlit("   ");
            reveal_strlit(",");
        }
        let ghost before = out@;
        if i > 0 {
            if inline {
                out.append(", ");
            } else {
                out.append("\n");
            }
        }
        let ghost sep_start = out@;
        if !inline {
            out.append(pad.as_str());
            out.append("   ");
        }
        out.append(attrs[i].0.as_str());
        out.append(": ");
        let q = quoted(attrs[i].1.as_str());
        out.append(q.as_str());
        if !inline {
            out.append(",");
        }
        proof {
            assert(a[i as int] == (attrs@[i as int].0@, attrs@[i as int].1@));
            assert(out@ =~= sep_start + parts[i as int]);
            assert(sep_start == if i > 0 { before + sep } else { before });
            lemma_join_push(parts.subrange(0, i as int), sep, parts[i as int]);
            assert(parts.subrange(0, i as int).push(parts[i as int]) =~= parts.subrange(0, i + 1));
            assert(out@ =~= start + join(parts.subrange(0, i + 1), sep));
        }
        i += 1;
    }
    proof {
        reveal_strlit("\n");
        reveal_strlit(" }");
    }
    if inline {
        out.append(" }");
    } else {
        out.append("\n");
        out.append(pad.as_str());
        out.append(" }");
    }
    proof {
        assert(parts.subrange(0, n as int) =~= parts);
        assert(final(out)@ =~= old(out)@ + attrs_block(offset as nat, a));
    }
}

/// Writes the dumps of `children` at indent `offset`, one per line.
fn debug_list(children: &Vec<Element>, offset: usize, comments: bool) -> (r: String)
    requires
        offset + 2 * depth_list(nodes_of(children@)) <= usize::MAX,
    ensures
        r@ == join(dump_list(nodes_of(children@), offset as nat, comments), seq!['\n']),
    decreases children, 0nat,
{
    let ghost ns = nodes_of(children@);
    proof {
        lemma_nodes_of(children@);
    }
    let mut out = String::new();
    let mut any = false;
    let mut i: usize = 0;
    while i < children.len()
        invariant
            i <= children.len(),
            any == (dump_list(ns.subrange(0, i as int), offset as nat, comments).len() > 0),
            ns == nodes_of(children@),
            ns.len() == children.len(),
            forall|j: int| 0 <= j < children.len() ==> #[trigger] ns[j] == children@[j]@,
            offset + 2 * depth_list(ns) <= usize::MAX,
            out@ == join(dump_list(ns.subrange(0, i as int), offset as nat, comments), seq!['\n']),
        decreases children.len() - i,
    {
        let child = &children[i];
        proof {
            lemma_depth_list(ns, i as int);
            assert(ns[i as int] == child@);
            assert(decreases_to!(children => children[i as int]));
        }
        let ghost prev = dump_list(ns.subrange(0, i as int), offset as nat, comments);
        let value = debug(child, offset, comments);
        match value {
            Option::Some(t) => {
                if any {
                    proof {
                        reveal_strlit("\n");
                    }
                    out.append("\n");
                }
                out.append(t.as_str());
                any = true;
                proof {
                    lemma_join_push(prev, seq!['\n'], t@);
                }
            },
            Option::None => {},
        }
        proof {
            let p = ns.subrange(0, i + 1);
            assert(p.subrange(0, i as int) =~= ns.subrange(0, i as int));
            assert(p[i as int] == ns[i as int]);
        }
        i += 1;
    }
    assert(ns.subrange(0, children.len() as int) =~= ns);
    out
}

/// The structural dump of `element` at indent `offset`; `None` when it shows
/// nothing. Comments are shown only where `comments` holds.
pub fn debug(element: &Element, offset: usize, comments: bool) -> (r: Option<String>)
    requires
        offset + 2 * depth(element@) <= usize::MAX,
    ensures
        opt_view(r) == dump_node(element@, offset as nat, comments),
    decreases element, 1nat,
{
    proof {
        reveal_strlit("\n");
        reveal_strlit("Text(");
        reveal_strlit("Comment(");
        reveal_strlit(")");
        reveal_strlit("Element::");
        reveal_strlit("!");
    }
    match element {
        Element::Empty => Option::None,
        Element::Wrapper(ch) => {
            let mut out = String::from_str("\n");
            let rest = debug_list(ch, offset, comments);
            out.append(rest.as_str());
            Option::Some(out)
        },
        Element::Text(t) => {
            let mut out = spaces_string(offset);
            out.append("Text(");
            let d = decimal(t.as_str().len());
            out.append(d.as_str());
            out.append(")");
            Option::Some(out)
        },
        Element::Comment(t) => {
            if comments {
                let mut out = spaces_string(offset);
                out.append("Comment(");
                let d = decimal(t.as_str().len());
                out.append(d.as_str());
                out.append(")");
                Option::Some(out)
            } else {
                Option::None
            }
        },
        Element::Tag { decl, tag, attrs, children } => {
            let mut out = spaces_string(offset);
            out.append("Element::");
            if *decl {
                out.append("!");
            }
            out.append(tag.as_str());
            push_attrs_block(&mut out, offset, attrs);
            match children {
                Option::Some(ch) => {
                    if ch.len() > 0 {
                        out.append("\n");
                        let rest = debug_list(ch, offset + 2, comments);
                        out.append(rest.as_str());
                    }
                },
                Option::None => {},
            }
            assert(out@ =~= dump_node(element@, offset as nat, comments)->0);
            Option::Some(out)
        },
    }
}

} // verus!
