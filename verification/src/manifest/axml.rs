//! A decoded binary XML document, and its rendering as XML text.
//!
//! The text is made to be scanned for the attributes of elements, not to be
//! read back as the same document: values are written as they are.

use vstd::prelude::*;
use vstd::string::*;
use crate::text::{chars_of, same_text, string_of};

verus! {

/// A node of a decoded document.
#[derive(Debug, PartialEq, Eq)]
pub enum Node {
    Element(Element),
    Cdata(Cdata),
}

/// An element: its tag, its attributes as pairs of name and value in the
/// order in which they were decoded, and its children in their order.
#[derive(Debug, PartialEq, Eq)]
pub struct Element {
    pub tag: String,
    pub attributes: Vec<(String, String)>,
    pub children: Vec<Node>,
}

/// A section of character data.
#[derive(Debug, PartialEq, Eq)]
pub struct Cdata {
    pub data: String,
}

/// A [`Node`] as character sequences.
pub enum NodeView {
    Element(ElementView),
    Cdata(CdataView),
}

/// An [`Element`] as character sequences.
pub struct ElementView {
    pub tag: Seq<char>,
    pub attributes: Seq<(Seq<char>, Seq<char>)>,
    pub children: Seq<NodeView>,
}

/// A [`Cdata`] as a character sequence.
pub struct CdataView {
    pub data: Seq<char>,
}

/// The view of a node: that of its tag, of the names and values of its
/// attributes and of each child, or that of its character data.
pub open spec fn view_of(node: Node) -> NodeView
    decreases node,
{
    match node {
        Node::Element(e) => NodeView::Element(
            ElementView {
                tag: e.tag@,
                attributes: e.attributes.deep_view(),
                children: Seq::new(
                    e.children@.len(),
                    |i: int|
                        if 0 <= i < e.children@.len() {
                            view_of(e.children@[i])
                        } else {
                            NodeView::Cdata(CdataView { data: Seq::empty() })
                        },
                ),
            },
        ),
        Node::Cdata(c) => NodeView::Cdata(CdataView { data: c.data@ }),
    }
}

impl DeepView for Node {
    type V = NodeView;

    open spec fn deep_view(&self) -> NodeView {
        view_of(*self)
    }
}

impl DeepView for Element {
    type V = ElementView;

    open spec fn deep_view(&self) -> ElementView {
        ElementView {
            tag: self.tag@,
            attributes: self.attributes.deep_view(),
            children: self.children.deep_view(),
        }
    }
}

impl DeepView for Cdata {
    type V = CdataView;

    open spec fn deep_view(&self) -> CdataView {
        CdataView { data: self.data@ }
    }
}

/// The view of a node that is an element is the view of the element.
pub proof fn lemma_element_view(e: Element)
    ensures
        Node::Element(e).deep_view() == NodeView::Element(e.deep_view()),
{
    assert(view_of(Node::Element(e))->Element_0.children =~= e.children.deep_view());
}

/// The tag of the element that is given the namespace declaration.
pub const ROOT_TAG: &'static str = "manifest";

/// The namespace declaration, as it stands among the attributes of the
/// element with the tag [`ROOT_TAG`].
pub const NAMESPACE: &'static str = " xmlns:android=\"http://schemas.android.com/apk/res/android\"";

/// By how much the lines of a child stand to the right of its parent's.
pub const STEP: &'static str = "  ";

/// The attributes as they stand in a start tag: before each a space, its
/// value between double quotes.
pub open spec fn attributes_text(attributes: Seq<(Seq<char>, Seq<char>)>) -> Seq<char>
    decreases attributes.len(),
{
    if attributes.len() == 0 {
        Seq::empty()
    } else {
        attributes_text(attributes.drop_last()) + " "@ + attributes.last().0 + "="@ + "\""@
            + attributes.last().1 + "\""@
    }
}

/// The start tag of an element. The element with the tag [`ROOT_TAG`] gets
/// the namespace declaration before its own attributes, whether or not they
/// hold one; an element without children closes itself.
pub open spec fn start_tag(e: ElementView) -> Seq<char> {
    "<"@ + e.tag + (if e.tag == ROOT_TAG@ {
        NAMESPACE@
    } else {
        Seq::empty()
    }) + attributes_text(e.attributes) + (if e.children.len() == 0 {
        "/"@
    } else {
        Seq::empty()
    }) + ">"@
}

/// The end tag of an element.
pub open spec fn end_tag(e: ElementView) -> Seq<char> {
    "<"@ + "/"@ + e.tag + ">"@
}

/// `data` with `margin` put behind each of its line feeds.
pub open spec fn with_margin(data: Seq<char>, margin: Seq<char>) -> Seq<char>
    decreases data.len(),
{
    if data.len() == 0 {
        Seq::empty()
    } else if data.last() == '\n' {
        with_margin(data.drop_last(), margin).push('\n') + margin
    } else {
        with_margin(data.drop_last(), margin).push(data.last())
    }
}

/// A section of character data between its markers, each line after the
/// first behind `margin`.
pub open spec fn cdata_text(c: CdataView, margin: Seq<char>) -> Seq<char> {
    "<![CDATA["@ + with_margin(c.data, margin) + "]]>"@
}

/// One line of the text: the margin, what the line holds, a line feed.
pub open spec fn line(margin: Seq<char>, text: Seq<char>) -> Seq<char> {
    margin + text + "\n"@
}

/// The lines of `nodes`, one node after the other.
pub open spec fn render_all(nodes: Seq<NodeView>, margin: Seq<char>) -> Seq<char>
    decreases nodes, 0nat,
{
    if nodes.len() == 0 {
        Seq::empty()
    } else {
        render_all(nodes.drop_last(), margin) + render(nodes.last(), margin)
    }
}

/// The lines of a node behind `margin`: for an element its start tag, its
/// children behind a margin that is wider by [`STEP`], and, if it has
/// children, its end tag; for character data the one section.
pub open spec fn render(node: NodeView, margin: Seq<char>) -> Seq<char>
    decreases node, 1nat,
{
    match node {
        NodeView::Element(e) => line(margin, start_tag(e)) + render_all(
            e.children,
            margin + STEP@,
        ) + (if e.children.len() == 0 {
            Seq::empty()
        } else {
            line(margin, end_tag(e))
        }),
        NodeView::Cdata(c) => line(margin, cdata_text(c, margin)),
    }
}

/// The document under `root` as XML text, the root at the left edge.
pub fn extract_xml(root: &Node) -> (r: String)
    ensures
        r@ == render(root.deep_view(), Seq::empty()),
{
    let mut xml_as_string = String::new();
    format_xml(root, "", &mut xml_as_string);
    proof {
        reveal_strlit("");
        assert(""@ =~= Seq::empty());
        assert(Seq::<char>::empty() + render(root.deep_view(), Seq::empty()) =~= render(
            root.deep_view(),
            Seq::empty(),
        ));
    }
    xml_as_string
}

/// Appends the lines of `e` behind `margin` to `output`.
pub fn format_xml(e: &Node, margin: &str, output: &mut String)
    ensures
        final(output)@ == old(output)@ + render(e.deep_view(), margin@),
    decreases e,
{
    match e {
        Node::Element(el) => {
            proof {
                lemma_element_view(*el);
            }
            let ghost kids = el.children.deep_view();
            output.append(margin);
            output.append(format_start_element(el).as_str());
            output.append("\n");
            let inner = margin.to_owned().concat(STEP);
            let ghost head = old(output)@ + line(margin@, start_tag(el.deep_view()));
            assert(output@ =~= head);
            let mut i: usize = 0;
            assert(kids.take(0) =~= Seq::empty());
            assert(head + render_all(Seq::empty(), inner@) =~= head);
            while i < el.children.len()
                invariant
                    i <= el.children.len(),
                    decreases_to!(e => el.children@),
                    kids == el.children.deep_view(),
                    inner@ == margin@ + STEP@,
                    output@ == head + render_all(kids.take(i as int), inner@),
                decreases el.children.len() - i,
            {
                format_xml(&el.children[i], inner.as_str(), output);
                proof {
                    let upto = kids.take(i + 1);
                    assert(upto.drop_last() =~= kids.take(i as int));
                    assert(upto.last() == el.children@[i as int].deep_view());
                    assert(output@ =~= head + render_all(upto, inner@));
                }
                i += 1;
            }
            assert(kids.take(i as int) =~= kids);
            if el.children.len() != 0 {
                let ghost body = output@;
                output.append(margin);
                output.append(format_end_element(el).as_str());
                output.append("\n");
                assert(output@ =~= body + line(margin@, end_tag(el.deep_view())));
            }
            assert(output@ =~= old(output)@ + render(e.deep_view(), margin@));
        },
        Node::Cdata(c) => {
            output.append(margin);
            output.append(format_cdata(c, margin).as_str());
            output.append("\n");
            assert(output@ =~= old(output)@ + render(e.deep_view(), margin@));
        },
    }
}

/// The section of character data `e`, its lines after the first behind
/// `margin`.
pub fn format_cdata(e: &Cdata, margin: &str) -> (s: String)
    ensures
        s@ == cdata_text(e.deep_view(), margin@),
{
    let data = chars_of(e.data.as_str());
    let edge = chars_of(margin);
    let mut moved: Vec<char> = Vec::new();
    let mut i: usize = 0;
    assert(data@.take(0) =~= Seq::empty());
    while i < data.len()
        invariant
            i <= data.len(),
            moved@ == with_margin(data@.take(i as int), edge@),
        decreases data.len() - i,
    {
        let ghost before = moved@;
        assert(data@.take(i + 1).drop_last() =~= data@.take(i as int));
        moved.push(data[i]);
        if data[i] == '\n' {
            let mut k: usize = 0;
            while k < edge.len()
                invariant
                    k <= edge.len(),
                    moved@ == before.push('\n') + edge@.take(k as int),
                decreases edge.len() - k,
            {
                moved.push(edge[k]);
                assert(edge@.take(k + 1) =~= edge@.take(k as int).push(edge@[k as int]));
                k += 1;
            }
            assert(edge@.take(k as int) =~= edge@);
        }
        i += 1;
    }
    assert(data@.take(i as int) =~= data@);
    let mut s = String::new();
    s.append("<![CDATA[");
    s.append(string_of(&moved).as_str());
    s.append("]]>");
    assert(s@ =~= cdata_text(e.deep_view(), margin@));
    s
}

/// The start tag of `e`.
pub fn format_start_element(e: &Element) -> (s: String)
    ensures
        s@ == start_tag(e.deep_view()),
{
    let ghost pairs = e.attributes.deep_view();
    let mut s = String::new();
    s.append("<");
    s.append(e.tag.as_str());

    if same_text(e.tag.as_str(), ROOT_TAG) {
        s.append(NAMESPACE);
    }
    let ghost head = s@;
    assert(head =~= "<"@ + e.tag@ + (if e.tag@ == ROOT_TAG@ {
        NAMESPACE@
    } else {
        Seq::empty()
    }));

    let mut i: usize = 0;
    assert(pairs.take(0) =~= Seq::empty());
    assert(head + attributes_text(Seq::empty()) =~= head);
    while i < e.attributes.len()
        invariant
            i <= e.attributes.len(),
            pairs == e.attributes.deep_view(),
            s@ == head + attributes_text(pairs.take(i as int)),
        decreases e.attributes.len() - i,
    {
        s.append(" ");
        s.append(e.attributes[i].0.as_str());
        s.append("=");
        s.append("\"");
        s.append(e.attributes[i].1.as_str());
        s.append("\"");
        proof {
            let upto = pairs.take(i + 1);
            assert(upto.drop_last() =~= pairs.take(i as int));
            assert(upto.last() == (e.attributes@[i as int].0@, e.attributes@[i as int].1@));
            assert(s@ =~= head + attributes_text(upto));
        }
        i += 1;
    }
    assert(pairs.take(i as int) =~= pairs);

    if e.children.len() == 0 {
        s.append("/");
    }
    s.append(">");
    assert(s@ =~= start_tag(e.deep_view()));
    s
}

/// The end tag of `e`.
pub fn format_end_element(e: &Element) -> (s: String)
    ensures
        s@ == end_tag(e.deep_view()),
{
    let mut s = String::new();
    s.append("<");
    s.append("/");
    s.append(e.tag.as_str());
    s.append(">");
    assert(s@ =~= end_tag(e.deep_view()));
    s
}

} // verus!
