//! A small builder for HTML elements.
//!
//! A node is an element name, a list of attributes and a list of children.
//! Children are fragments of markup that are written out as they are, so a
//! child may be plain text or the markup of another node. Nothing is escaped:
//! what is put in is what comes out.

use crate::text::concat;
use vstd::prelude::*;
use vstd::string::StringExecFns;

verus! {

/// One `name="value"` pair of an element.
pub struct Attribute {
    pub name: String,
    pub value: String,
}

impl View for Attribute {
    type V = (Seq<char>, Seq<char>);

    open spec fn view(&self) -> (Seq<char>, Seq<char>) {
        (self.name@, self.value@)
    }
}

/// An HTML element under construction.
pub struct RenderNode {
    pub kind: String,
    pub attributes: Vec<Attribute>,
    pub children: Vec<String>,
}

/// What a node is made of, as plain sequences.
pub ghost struct NodeView {
    pub kind: Seq<char>,
    pub attributes: Seq<(Seq<char>, Seq<char>)>,
    pub children: Seq<Seq<char>>,
}

/// The attributes as they stand in an opening tag: each one as a space,
/// the name, `="`, the value and `"`.
pub open spec fn attributes_markup(attributes: Seq<(Seq<char>, Seq<char>)>) -> Seq<char>
    decreases attributes.len(),
{
    if attributes.len() == 0 {
        Seq::empty()
    } else {
        attributes_markup(attributes.drop_last()) + " "@ + attributes.last().0 + "=\""@
            + attributes.last().1 + "\""@
    }
}

/// The markup of an element. Without children it is the single tag
/// `<kind attributes />`; with children it is the opening tag, the children
/// in order and the closing tag.
pub open spec fn element(
    kind: Seq<char>,
    attributes: Seq<(Seq<char>, Seq<char>)>,
    children: Seq<Seq<char>>,
) -> Seq<char> {
    if children.len() == 0 {
        "<"@ + kind + attributes_markup(attributes) + " />"@
    } else {
        "<"@ + kind + attributes_markup(attributes) + ">"@ + concat(children) + "</"@ + kind
            + ">"@
    }
}

impl NodeView {
    /// An element named `kind`, with no attribute and no child.
    pub open spec fn new(kind: Seq<char>) -> NodeView {
        NodeView { kind, attributes: Seq::empty(), children: Seq::empty() }
    }

    /// This element with one more attribute, after those it has.
    pub open spec fn attr(self, name: Seq<char>, value: Seq<char>) -> NodeView {
        NodeView { attributes: self.attributes.push((name, value)), ..self }
    }

    /// This element with one more child, after those it has.
    pub open spec fn child(self, markup: Seq<char>) -> NodeView {
        NodeView { children: self.children.push(markup), ..self }
    }

    /// The markup this node is written as.
    pub open spec fn markup(self) -> Seq<char> {
        element(self.kind, self.attributes, self.children)
    }
}

impl View for RenderNode {
    type V = NodeView;

    open spec fn view(&self) -> NodeView {
        NodeView {
            kind: self.kind@,
            attributes: Seq::new(self.attributes@.len(), |i: int| self.attributes@[i]@),
            children: Seq::new(self.children@.len(), |i: int| self.children@[i]@),
        }
    }
}

impl RenderNode {
    /// An element named `kind`, with no attribute and no child yet.
    pub fn new(kind: &str) -> (node: RenderNode)
        ensures
            node@ == NodeView::new(kind@),
    {
        let node = RenderNode { kind: kind.to_owned(), attributes: Vec::new(), children: Vec::new() };
        assert(node@.attributes =~= Seq::empty());
        assert(node@.children =~= Seq::empty());
        node
    }

    /// The same element with one more attribute, after those it has.
    pub fn attr(self, name: &str, value: &str) -> (node: RenderNode)
        ensures
            node@ == self@.attr(name@, value@),
    {
        let mut node = self;
        node.attributes.push(Attribute { name: name.to_owned(), value: value.to_owned() });
        assert(node@.attributes =~= self@.attributes.push((name@, value@)));
        assert(node@.children =~= self@.children);
        node
    }

    /// The same element with one more child, after those it has. The child
    /// is written out as it is given.
    pub fn child(self, markup: &str) -> (node: RenderNode)
        ensures
            node@ == self@.child(markup@),
    {
        let mut node = self;
        node.children.push(markup.to_owned());
        assert(node@.children =~= self@.children.push(markup@));
        assert(node@.attributes =~= self@.attributes);
        node
    }

    /// The same element with the markup of `inner` as one more child.
    pub fn node(self, inner: &RenderNode) -> (node: RenderNode)
        ensures
            node@ == self@.child(inner@.markup()),
    {
        let markup = inner.render();
        self.child(markup.as_str())
    }

    /// Writes the element out.
    pub fn render(&self) -> (out: String)
        ensures
            out@ == self@.markup(),
    {
        let mut out = String::new();
        out.append("<");
        out.append(self.kind.as_str());
        let ghost head = out@;
        let mut i: usize = 0;
        while i < self.attributes.len()
            invariant
                i <= self.attributes.len(),
                out@ == head + attributes_markup(self@.attributes.take(i as int)),
            decreases self.attributes.len() - i,
        {
            proof {
                assert(self@.attributes.take(i + 1).drop_last() =~= self@.attributes.take(i as int));
            }
            out.append(" ");
            out.append(self.attributes[i].name.as_str());
            out.append("=\"");
            out.append(self.attributes[i].value.as_str());
            out.append("\"");
            i += 1;
            assert(out@ =~= head + attributes_markup(self@.attributes.take(i as int)));
        }
        proof {
            assert(self@.attributes.take(self.attributes.len() as int) =~= self@.attributes);
        }
        if self.children.len() == 0 {
            out.append(" />");
            return out;
        }
        out.append(">");
        let ghost open = out@;
        let mut j: usize = 0;
        while j < self.children.len()
            invariant
                j <= self.children.len(),
                out@ == open + concat(self@.children.take(j as int)),
            decreases self.children.len() - j,
        {
            proof {
                assert(self@.children.take(j + 1).drop_last() =~= self@.children.take(j as int));
            }
            out.append(self.children[j].as_str());
            j += 1;
            assert(out@ =~= open + concat(self@.children.take(j as int)));
        }
        proof {
            assert(self@.children.take(self.children.len() as int) =~= self@.children);
        }
        out.append("</");
        out.append(self.kind.as_str());
        out.append(">");
        out
    }
}

} // verus!
