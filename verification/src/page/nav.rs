//! The navigation bar that every page carries.

use crate::markup::{NodeView, RenderNode};
use vstd::prelude::*;

verus! {

/// One button of the bar: a link to `href` labelled `label`.
pub open spec fn button(href: Seq<char>, label: Seq<char>) -> Seq<char> {
    NodeView::new("a"@).attr("class"@, "nav-button"@).attr("href"@, href).child(label).markup()
}

/// The markup of the bar: the buttons for the music page and for the
/// documents, in a container, in a `nav` element.
pub open spec fn navbar() -> Seq<char> {
    let container = NodeView::new("div"@).attr("class"@, "nav-container"@).child(
        button("/music"@, "Music Recs"@),
    ).child(button("/words"@, "Words"@));
    NodeView::new("nav"@).attr("class"@, "navbar"@).child(container.markup()).markup()
}

/// The navigation bar. It is the same on every call, so an application
/// renders it once and keeps it.
pub fn render() -> (out: String)
    ensures
        out@ == navbar(),
{
    let music = RenderNode::new("a").attr("class", "nav-button").attr("href", "/music").child(
        "Music Recs",
    );
    let words = RenderNode::new("a").attr("class", "nav-button").attr("href", "/words").child(
        "Words",
    );
    let container = RenderNode::new("div").attr("class", "nav-container").node(&music).node(&words);
    RenderNode::new("nav").attr("class", "navbar").node(&container).render()
}

} // verus!
