//! HTML model and Title Extractor: a tree of parsed HTML nodes and the
//! depth-first, pre-order search for the first `title` element, whose
//! direct text children are joined with single spaces.

use vstd::prelude::*;
use vstd::string::StringExecFns;

verus! {

/// A node of a parsed HTML document.
pub enum HtmlNode {
    Text(String),
    Element(HtmlElement),
    Comment(String),
}

/// An element node: its tag name and its child nodes in document order.
pub struct HtmlElement {
    pub name: String,
    pub children: Vec<HtmlNode>,
}

/// Named result of `str::to_lowercase`: the Unicode lowercase mapping of a
/// string, a function of its characters alone.
pub uninterp spec fn lower_of(s: Seq<char>) -> Seq<char>;

/// Relies on str::to_lowercase: yields the Unicode lowercase mapping of
/// the string.
#[verifier::external_body]
fn lowercase(s: &str) -> (r: String)
    ensures
        r@ == lower_of(s@),
{
    s.to_lowercase()
}

/// Whether a tag name is `title`, compared case-insensitively.
pub open spec fn is_title_name(name: Seq<char>) -> bool {
    lower_of(name) == "title"@
}

/// The contents of the direct text children of a node sequence, in order.
pub open spec fn text_parts(children: Seq<HtmlNode>) -> Seq<Seq<char>>
    decreases children.len(),
{
    if children.len() == 0 {
        Seq::empty()
    } else {
        let init = text_parts(children.drop_last());
        match children.last() {
            HtmlNode::Text(t) => init.push(t@),
            _ => init,
        }
    }
}

/// The parts joined with a single space between neighbours.
pub open spec fn join_space(parts: Seq<Seq<char>>) -> Seq<char>
    decreases parts.len(),
{
    if parts.len() == 0 {
        Seq::empty()
    } else if parts.len() == 1 {
        parts[0]
    } else {
        parts[0] + seq![' '] + join_space(parts.skip(1))
    }
}

/// The first title found in a forest of nodes, depth-first and pre-order:
/// a `title` element yields its direct text children joined with spaces;
/// any other element is searched recursively; the first value found wins.
pub open spec fn title_in_nodes(nodes: Seq<HtmlNode>) -> Option<Seq<char>>
    decreases nodes,
    via title_in_nodes_decreases
{
    if nodes.len() == 0 {
        None
    } else {
        let first = match nodes[0] {
            HtmlNode::Element(el) => if is_title_name(el.name@) {
                Some(join_space(text_parts(el.children@)))
            } else {
                title_in_nodes(el.children@)
            },
            _ => None,
        };
        if first is Some {
            first
        } else {
            title_in_nodes(nodes.skip(1))
        }
    }
}

#[via_fn]
proof fn title_in_nodes_decreases(nodes: Seq<HtmlNode>) {
    if nodes.len() != 0 {
        assert(decreases_to!(nodes => nodes[0]));
        if nodes[0] is Element {
            assert(decreases_to!(nodes[0] => nodes[0]->Element_0));
            assert(decreases_to!(nodes[0]->Element_0 => nodes[0]->Element_0.children));
            assert(decreases_to!(nodes[0]->Element_0.children => nodes[0]->Element_0.children@));
        }
        assert(nodes.skip(1) == nodes.subrange(1, nodes.len() as int));
        assert(decreases_to!(nodes => nodes.subrange(1, nodes.len() as int)));
    }
}

/// The title an element yields: its joined direct text children when it is
/// itself a `title` element, else the first title among its descendants.
pub open spec fn element_title(el: HtmlElement) -> Option<Seq<char>> {
    if is_title_name(el.name@) {
        Some(join_space(text_parts(el.children@)))
    } else {
        title_in_nodes(el.children@)
    }
}

proof fn lemma_title_step(nodes: Seq<HtmlNode>, i: int)
    requires
        0 <= i < nodes.len(),
    ensures
        ({
            let first = match nodes[i] {
                HtmlNode::Element(el) => element_title(el),
                _ => None,
            };
            title_in_nodes(nodes.skip(i)) == if first is Some {
                first
            } else {
                title_in_nodes(nodes.skip(i + 1))
            }
        }),
{
    let s = nodes.skip(i);
    assert(s.len() == nodes.len() - i);
    assert(s[0] == nodes[i]);
    assert(s.skip(1) =~= nodes.skip(i + 1));
}

proof fn lemma_join_space_push(parts: Seq<Seq<char>>, x: Seq<char>)
    ensures
        join_space(parts.push(x)) == if parts.len() == 0 {
            x
        } else {
            join_space(parts) + seq![' '] + x
        },
    decreases parts.len(),
{
    let p = parts.push(x);
    assert(p.len() == parts.len() + 1);
    if parts.len() == 0 {
        assert(p[0] == x);
    } else if parts.len() == 1 {
        assert(p[0] == parts[0]);
        assert(p.skip(1) =~= seq![x]);
        assert(join_space(seq![x]) == x);
    } else {
        assert(p[0] == parts[0]);
        assert(p.skip(1) =~= parts.skip(1).push(x));
        lemma_join_space_push(parts.skip(1), x);
        assert(parts[0] + seq![' '] + (join_space(parts.skip(1)) + seq![' '] + x) =~= (parts[0]
            + seq![' '] + join_space(parts.skip(1))) + seq![' '] + x);
    }
}

/// Searches one element for a title, as `element_title` describes: a
/// `title` element (case-insensitively) yields its direct text children
/// joined with single spaces; any other element yields the first title
/// among its children, searched depth-first.
pub fn search_for_title_element(el: &HtmlElement) -> (r: Option<String>)
    ensures
        match r {
            Some(s) => element_title(*el) == Some(s@),
            None => element_title(*el) is None,
        },
    decreases *el,
{
    let low = lowercase(el.name.as_str());
    if low == String::from_str("title") {
        let mut out = String::new();
        let mut any = false;
        let mut i: usize = 0;
        proof {
            assert(el.children@.take(0) =~= Seq::<HtmlNode>::empty());
        }
        while i < el.children.len()
            invariant
                i <= el.children@.len(),
                any == (text_parts(el.children@.take(i as int)).len() > 0),
                out@ == join_space(text_parts(el.children@.take(i as int))),
            decreases el.children@.len() - i,
        {
            let ghost prefix = el.children@.take(i as int);
            proof {
                assert(el.children@.take(i as int + 1).drop_last() =~= prefix);
                assert(el.children@.take(i as int + 1).last() == el.children@[i as int]);
            }
            match &el.children[i] {
                HtmlNode::Text(t) => {
                    proof {
                        lemma_join_space_push(text_parts(prefix), t@);
                        reveal_strlit(" ");
                        assert(" "@ =~= seq![' ']);
                    }
                    if any {
                        out.append(" ");
                    } else {
                        proof {
                            assert(out@ + t@ =~= t@);
                        }
                    }
                    out.append(t.as_str());
                    any = true;
                },
                _ => {},
            }
            i = i + 1;
        }
        proof {
            assert(el.children@.take(el.children@.len() as int) =~= el.children@);
        }
        Some(out)
    } else {
        let mut i: usize = 0;
        proof {
            assert(el.children@.skip(0) =~= el.children@);
        }
        while i < el.children.len()
            invariant
                i <= el.children@.len(),
                !is_title_name(el.name@),
                title_in_nodes(el.children@) == title_in_nodes(el.children@.skip(i as int)),
            decreases el.children@.len() - i,
        {
            proof {
                lemma_title_step(el.children@, i as int);
            }
            match &el.children[i] {
                HtmlNode::Element(e2) => {
                    proof {
                        assert(decreases_to!(*el => el.children));
                        assert(decreases_to!(el.children => el.children@));
                        assert(decreases_to!(el.children@ => el.children@[i as int]));
                        assert(decreases_to!(el.children@[i as int] => el.children@[i as int]->Element_0));
                    }
                    match search_for_title_element(e2) {
                        Some(s) => {
                            return Some(s);
                        },
                        None => {},
                    }
                },
                _ => {},
            }
            i = i + 1;
        }
        proof {
            assert(el.children@.skip(el.children@.len() as int) =~= Seq::<HtmlNode>::empty());
        }
        None
    }
}

/// Searches the top-level nodes of a parsed document for the first title,
/// as `title_in_nodes` describes.
pub fn search_for_title(nodes: &Vec<HtmlNode>) -> (r: Option<String>)
    ensures
        match r {
            Some(s) => title_in_nodes(nodes@) == Some(s@),
            None => title_in_nodes(nodes@) is None,
        },
{
    let mut i: usize = 0;
    proof {
        assert(nodes@.skip(0) =~= nodes@);
    }
    while i < nodes.len()
        invariant
            i <= nodes@.len(),
            title_in_nodes(nodes@) == title_in_nodes(nodes@.skip(i as int)),
        decreases nodes@.len() - i,
    {
        proof {
            lemma_title_step(nodes@, i as int);
        }
        match &nodes[i] {
            HtmlNode::Element(e2) => {
                match search_for_title_element(e2) {
                    Some(s) => {
                        return Some(s);
                    },
                    None => {},
                }
            },
            _ => {},
        }
        i = i + 1;
    }
    proof {
        assert(nodes@.skip(nodes@.len() as int) =~= Seq::<HtmlNode>::empty());
    }
    None
}

#[verifier::external_type_specification]
#[verifier::external_body]
pub struct ExHtmlParserNode(html_parser::Node);

/// Named result of parsing a string as HTML with html_parser and reading
/// the document's top-level nodes out: a function of the input string
/// alone; nothing when the markup is rejected.
pub uninterp spec fn html_of(s: Seq<char>) -> Option<Seq<HtmlNode>>;

/// Relies on html_parser's Node enum — Text, Element (with its name and
/// children) and Comment — to copy one parsed node and its descendants
/// into the library's tree, in document order.
#[verifier::external_body]
fn convert_html_node(n: html_parser::Node) -> HtmlNode {
    match n {
        html_parser::Node::Text(t) => HtmlNode::Text(t),
        html_parser::Node::Comment(t) => HtmlNode::Comment(t),
        html_parser::Node::Element(e) => {
            let mut children: Vec<HtmlNode> = Vec::new();
            for c in e.children {
                children.push(convert_html_node(c));
            }
            HtmlNode::Element(HtmlElement { name: e.name, children })
        },
    }
}

/// Relies on html_parser::Dom::parse: parses the string as an HTML
/// document and yields its top-level nodes, or nothing on malformed
/// markup; the result is a function of the input alone.
#[verifier::external_body]
pub(crate) fn parse_html(s: &str) -> (r: Option<Vec<HtmlNode>>)
    ensures
        match r {
            Some(v) => html_of(s@) == Some(v@),
            None => html_of(s@) is None,
        },
{
    match html_parser::Dom::parse(s) {
        Ok(dom) => {
            let mut out: Vec<HtmlNode> = Vec::new();
            for c in dom.children {
                out.push(convert_html_node(c));
            }
            Some(out)
        },
        Err(_) => None,
    }
}

/// Whether a `title` element occurs anywhere in the forest.
pub open spec fn has_title(nodes: Seq<HtmlNode>) -> bool
    decreases nodes,
    via has_title_decreases
{
    if nodes.len() == 0 {
        false
    } else {
        (match nodes[0] {
            HtmlNode::Element(el) => is_title_name(el.name@) || has_title(el.children@),
            _ => false,
        }) || has_title(nodes.skip(1))
    }
}

#[via_fn]
proof fn has_title_decreases(nodes: Seq<HtmlNode>) {
    if nodes.len() != 0 {
        assert(decreases_to!(nodes => nodes[0]));
        if nodes[0] is Element {
            assert(decreases_to!(nodes[0] => nodes[0]->Element_0));
            assert(decreases_to!(nodes[0]->Element_0 => nodes[0]->Element_0.children));
            assert(decreases_to!(nodes[0]->Element_0.children => nodes[0]->Element_0.children@));
        }
        assert(nodes.skip(1) == nodes.subrange(1, nodes.len() as int));
        assert(decreases_to!(nodes => nodes.subrange(1, nodes.len() as int)));
    }
}

/// Law: the title search yields a value exactly when a `title` element
/// occurs somewhere in the forest; in particular a document without one
/// yields no title.
pub proof fn lemma_title_found_iff(nodes: Seq<HtmlNode>)
    ensures
        title_in_nodes(nodes) is Some <==> has_title(nodes),
    decreases nodes,
{
    if nodes.len() != 0 {
        assert(decreases_to!(nodes => nodes[0]));
        match nodes[0] {
            HtmlNode::Element(el) => {
                assert(decreases_to!(nodes[0] => nodes[0]->Element_0));
                assert(decreases_to!(nodes[0]->Element_0 => nodes[0]->Element_0.children));
                assert(decreases_to!(nodes[0]->Element_0.children => nodes[0]->Element_0.children@));
                lemma_title_found_iff(el.children@);
            },
            _ => {},
        }
        assert(nodes.skip(1) == nodes.subrange(1, nodes.len() as int));
        assert(decreases_to!(nodes => nodes.subrange(1, nodes.len() as int)));
        lemma_title_found_iff(nodes.skip(1));
    }
}

} // verus!
