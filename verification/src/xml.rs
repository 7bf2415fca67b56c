//! XML model and Descent Matcher: a tree of parsed XML nodes, a search
//! for the uniquely-named descendant element, and the node-text reading
//! that the WHOIS resolver needs.

use vstd::prelude::*;

verus! {

/// A node of a parsed XML document.  The document root is `Root`; a
/// processing instruction carries nothing the matcher reads.
pub enum XmlNode {
    Root(Vec<XmlNode>),
    Element(XmlElement),
    Text(String),
    Comment(String),
    Pi,
}

/// An element node: its local tag name and its child nodes in document
/// order.
pub struct XmlElement {
    pub name: String,
    pub children: Vec<XmlNode>,
}

/// The local tag name of a node: empty for anything but an element.
pub open spec fn xml_name(n: XmlNode) -> Seq<char> {
    match n {
        XmlNode::Element(e) => e.name@,
        _ => Seq::empty(),
    }
}

/// The child nodes of a node, in document order.
pub open spec fn xml_children(n: XmlNode) -> Seq<XmlNode> {
    match n {
        XmlNode::Root(c) => c@,
        XmlNode::Element(e) => e.children@,
        _ => Seq::empty(),
    }
}

/// All nodes named `name` among the nodes of `ns` and all their
/// descendants, in document order.
pub open spec fn named_in_seq(ns: Seq<XmlNode>, name: Seq<char>) -> Seq<XmlNode>
    decreases ns,
    via named_in_seq_decreases
{
    if ns.len() == 0 {
        Seq::empty()
    } else {
        let own = if xml_name(ns[0]) == name {
            seq![ns[0]]
        } else {
            Seq::<XmlNode>::empty()
        };
        own + named_in_seq(xml_children(ns[0]), name) + named_in_seq(ns.skip(1), name)
    }
}

#[via_fn]
proof fn named_in_seq_decreases(ns: Seq<XmlNode>, name: Seq<char>) {
    if ns.len() != 0 {
        assert(decreases_to!(ns => ns[0]));
        match ns[0] {
            XmlNode::Root(c) => {
                assert(xml_children(ns[0]) == ns[0]->Root_0@);
                assert(decreases_to!(ns[0] => ns[0]->Root_0));
                assert(decreases_to!(ns[0]->Root_0 => ns[0]->Root_0@));
            },
            XmlNode::Element(e) => {
                assert(xml_children(ns[0]) == ns[0]->Element_0.children@);
                assert(decreases_to!(ns[0] => ns[0]->Element_0));
                assert(decreases_to!(ns[0]->Element_0 => ns[0]->Element_0.children));
                assert(decreases_to!(ns[0]->Element_0.children => ns[0]->Element_0.children@));
            },
            _ => {
                assert(xml_children(ns[0]) =~= Seq::<XmlNode>::empty());
                vstd::seq::axiom_seq_len_decreases::<XmlNode>(ns, Seq::empty());
            },
        }
        assert(ns.skip(1) == ns.subrange(1, ns.len() as int));
        assert(decreases_to!(ns => ns.subrange(1, ns.len() as int)));
    }
}

/// All nodes named `name` among `n` and its descendants, in document
/// order; `n` itself is searched too.
pub open spec fn named_descendants(n: XmlNode, name: Seq<char>) -> Seq<XmlNode> {
    named_in_seq(seq![n], name)
}

proof fn lemma_named_descendants_unfold(n: XmlNode, name: Seq<char>)
    ensures
        named_descendants(n, name) == (if xml_name(n) == name {
            seq![n]
        } else {
            Seq::<XmlNode>::empty()
        }) + named_in_seq(xml_children(n), name),
{
    let s = seq![n];
    assert(s.len() == 1);
    assert(s[0] == n);
    assert(s.skip(1) =~= Seq::<XmlNode>::empty());
    assert(named_in_seq(s.skip(1), name) =~= Seq::<XmlNode>::empty());
    let own = if xml_name(n) == name {
        seq![n]
    } else {
        Seq::<XmlNode>::empty()
    };
    assert(named_in_seq(s, name) == own + named_in_seq(xml_children(n), name) + named_in_seq(
        s.skip(1),
        name,
    ));
    assert(own + named_in_seq(xml_children(n), name) + Seq::<XmlNode>::empty() =~= own
        + named_in_seq(xml_children(n), name));
}

proof fn lemma_named_snoc(ns: Seq<XmlNode>, x: XmlNode, name: Seq<char>)
    ensures
        named_in_seq(ns.push(x), name) == named_in_seq(ns, name) + named_descendants(x, name),
    decreases ns.len(),
{
    let p = ns.push(x);
    assert(p.len() == ns.len() + 1);
    if ns.len() == 0 {
        assert(p[0] == x);
        assert(p.skip(1) =~= Seq::<XmlNode>::empty());
        assert(named_in_seq(p.skip(1), name) =~= Seq::<XmlNode>::empty());
        lemma_named_descendants_unfold(x, name);
        let own = if xml_name(x) == name {
            seq![x]
        } else {
            Seq::<XmlNode>::empty()
        };
        assert(named_in_seq(p, name) == own + named_in_seq(xml_children(x), name) + named_in_seq(
            p.skip(1),
            name,
        ));
        assert(own + named_in_seq(xml_children(x), name) + Seq::<XmlNode>::empty() =~= own
            + named_in_seq(xml_children(x), name));
        assert(named_in_seq(ns, name) =~= Seq::<XmlNode>::empty());
        assert(named_in_seq(ns, name) + named_descendants(x, name) =~= named_descendants(x, name));
    } else {
        assert(p[0] == ns[0]);
        assert(p.skip(1) =~= ns.skip(1).push(x));
        lemma_named_snoc(ns.skip(1), x, name);
        let own = if xml_name(ns[0]) == name {
            seq![ns[0]]
        } else {
            Seq::<XmlNode>::empty()
        };
        let ch = named_in_seq(xml_children(ns[0]), name);
        assert(named_in_seq(p, name) == own + ch + named_in_seq(p.skip(1), name));
        assert(named_in_seq(ns, name) == own + ch + named_in_seq(ns.skip(1), name));
        assert(named_in_seq(p.skip(1), name) == named_in_seq(ns.skip(1), name)
            + named_descendants(x, name));
        assert(own + ch + (named_in_seq(ns.skip(1), name) + named_descendants(x, name)) =~= (own
            + ch + named_in_seq(ns.skip(1), name)) + named_descendants(x, name));
    }
}

/// The outcome of a search: no match, exactly one, or more than one.
#[derive(Clone, Copy)]
enum FindResult<'a> {
    Zero,
    One(&'a XmlNode),
    Many,
}

/// How a search outcome describes a sequence of matches.
spec fn describes<'a>(r: FindResult<'a>, s: Seq<XmlNode>) -> bool {
    match r {
        FindResult::Zero => s.len() == 0,
        FindResult::One(m) => s.len() == 1 && *m == s[0],
        FindResult::Many => s.len() >= 2,
    }
}

fn find_named<'a>(n: &'a XmlNode, name: &String) -> (r: FindResult<'a>)
    ensures
        describes(r, named_descendants(*n, name@)),
    decreases *n,
{
    let ghost ownseq: Seq<XmlNode> = if xml_name(*n) == name@ {
        seq![*n]
    } else {
        Seq::<XmlNode>::empty()
    };
    proof {
        lemma_named_descendants_unfold(*n, name@);
    }
    match n {
        XmlNode::Element(e) => {
            let own: FindResult<'a> = if e.name == *name {
                FindResult::One(n)
            } else {
                FindResult::Zero
            };
            proof {
                assert(xml_name(*n) == e.name@);
                assert(describes(own, ownseq));
            }
            find_in_list(&e.children, name, own, Ghost(ownseq))
        },
        XmlNode::Root(c) => {
            let own: FindResult<'a> = if name.as_str().is_empty() {
                FindResult::One(n)
            } else {
                FindResult::Zero
            };
            proof {
                if name@.len() == 0 {
                    assert(xml_name(*n) =~= name@);
                } else {
                    assert(xml_name(*n) != name@);
                }
                assert(describes(own, ownseq));
            }
            find_in_list(c, name, own, Ghost(ownseq))
        },
        _ => {
            let own: FindResult<'a> = if name.as_str().is_empty() {
                FindResult::One(n)
            } else {
                FindResult::Zero
            };
            proof {
                if name@.len() == 0 {
                    assert(xml_name(*n) =~= name@);
                } else {
                    assert(xml_name(*n) != name@);
                }
                assert(describes(own, ownseq));
                assert(named_in_seq(xml_children(*n), name@) =~= Seq::<XmlNode>::empty());
                assert(ownseq + named_in_seq(xml_children(*n), name@) =~= ownseq);
            }
            own
        },
    }
}

fn find_in_list<'a>(
    children: &'a Vec<XmlNode>,
    name: &String,
    own: FindResult<'a>,
    Ghost(base): Ghost<Seq<XmlNode>>,
) -> (r: FindResult<'a>)
    requires
        describes(own, base),
    ensures
        describes(r, base + named_in_seq(children@, name@)),
    decreases children@,
{
    let mut acc = own;
    let mut i: usize = 0;
    proof {
        assert(children@.take(0) =~= Seq::<XmlNode>::empty());
        assert(base + Seq::<XmlNode>::empty() =~= base);
    }
    while i < children.len()
        invariant
            i <= children.len(),
            describes(acc, base + named_in_seq(children@.take(i as int), name@)),
        decreases children@.len() - i,
    {
        let cr = find_named(&children[i], name);
        let ghost a = base + named_in_seq(children@.take(i as int), name@);
        let ghost b = named_descendants(children@[i as int], name@);
        let next = match (acc, cr) {
            (FindResult::Zero, x) => x,
            (x, FindResult::Zero) => x,
            _ => FindResult::Many,
        };
        proof {
            assert(children@.take(i as int + 1) =~= children@.take(i as int).push(
                children@[i as int],
            ));
            lemma_named_snoc(children@.take(i as int), children@[i as int], name@);
            assert(base + (named_in_seq(children@.take(i as int), name@) + b) =~= a + b);
            if a.len() == 0 {
                assert(a + b =~= b);
            }
            if b.len() == 0 {
                assert(a + b =~= a);
            }
            if a.len() == 1 && b.len() == 0 {
                assert((a + b)[0] == a[0]);
            }
            if a.len() == 0 && b.len() == 1 {
                assert((a + b)[0] == b[0]);
            }
            assert(describes(next, a + b));
        }
        acc = next;
        i = i + 1;
    }
    proof {
        assert(children@.take(children@.len() as int) =~= children@);
    }
    acc
}

/// Locates the descendant element of `node` (the node itself included)
/// whose local tag name equals `child_tagname`: the node when exactly one
/// match exists, and nothing when there are zero or several matches —
/// ambiguous candidates are rejected, not guessed at.
pub fn descend_xml_tree<'a>(node: &'a XmlNode, child_tagname: &String) -> (r: Option<
    &'a XmlNode,
>)
    ensures
        ({
            let ms = named_descendants(*node, child_tagname@);
            match r {
                Some(m) => ms.len() == 1 && *m == ms[0],
                None => ms.len() != 1,
            }
        }),
{
    match find_named(node, child_tagname) {
        FindResult::One(m) => Some(m),
        _ => None,
    }
}

/// The text of a node, as roxmltree reads it: a text or comment node's
/// own content; an element's first child's content when that child is a
/// text node; nothing otherwise.
pub open spec fn xml_text_spec(n: XmlNode) -> Option<Seq<char>> {
    match n {
        XmlNode::Text(s) => Some(s@),
        XmlNode::Comment(s) => Some(s@),
        XmlNode::Element(e) => if e.children@.len() > 0 && e.children@[0] is Text {
            Some(e.children@[0]->Text_0@)
        } else {
            None
        },
        _ => None,
    }
}

#[verifier::external_type_specification]
#[verifier::external_body]
pub struct ExRoxmlNode<'a, 'input: 'a>(roxmltree::Node<'a, 'input>);

/// Named result of parsing a string as XML with roxmltree and reading the
/// tree out node by node: a function of the input string alone; nothing
/// when the input is not well-formed XML.
pub uninterp spec fn xml_of(s: Seq<char>) -> Option<XmlNode>;

/// Relies on roxmltree's Node accessors — node_type, tag_name().name(),
/// text and children — to copy one parsed node and its descendants into
/// the library's tree, in document order.
#[verifier::external_body]
fn convert_xml_node(n: roxmltree::Node) -> XmlNode {
    let mut children: Vec<XmlNode> = Vec::new();
    for c in n.children() {
        children.push(convert_xml_node(c));
    }
    match n.node_type() {
        roxmltree::NodeType::Root => XmlNode::Root(children),
        roxmltree::NodeType::Element => XmlNode::Element(XmlElement {
            name: n.tag_name().name().to_string(),
            children,
        }),
        roxmltree::NodeType::PI => XmlNode::Pi,
        roxmltree::NodeType::Comment => XmlNode::Comment(n.text().unwrap_or("").to_string()),
        roxmltree::NodeType::Text => XmlNode::Text(n.text().unwrap_or("").to_string()),
    }
}

/// Relies on roxmltree::Document::parse: parses the string as XML and
/// yields the document tree from its root, or nothing on malformed XML;
/// the result is a function of the input alone.
#[verifier::external_body]
pub(crate) fn parse_xml(s: &str) -> (r: Option<XmlNode>)
    ensures
        r == xml_of(s@),
{
    match roxmltree::Document::parse(s) {
        Ok(doc) => Some(convert_xml_node(doc.root())),
        Err(_) => None,
    }
}

/// Reads a node's text, as `xml_text_spec` describes.
pub fn xml_text(n: &XmlNode) -> (r: Option<String>)
    ensures
        match r {
            Some(s) => xml_text_spec(*n) == Some(s@),
            None => xml_text_spec(*n) is None,
        },
{
    match n {
        XmlNode::Text(s) => Some(s.clone()),
        XmlNode::Comment(s) => Some(s.clone()),
        XmlNode::Element(e) => {
            if e.children.len() > 0 {
                match &e.children[0] {
                    XmlNode::Text(s) => Some(s.clone()),
                    _ => None,
                }
            } else {
                None
            }
        },
        _ => None,
    }
}

} // verus!
