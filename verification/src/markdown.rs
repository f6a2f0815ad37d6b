//! The markup engine's two entry points, as the library consumes them:
//! parse text into the pre-order event stream of its tree, and render text
//! to HTML with the image references rewritten first.

use vstd::prelude::*;
use crate::document::{MdEvent, MdKind};

verus! {

/// The markup node data, declared so that it can appear in the signature of
/// the trusted reader below; the library never looks inside.
#[verifier::external_type_specification]
#[verifier::external_body]
pub struct ExNodeValue(comrak::nodes::NodeValue);

/// The pre-order event stream of the tree that the markup engine parses the
/// text into (front matter fenced by `---` enabled): a function of the
/// characters alone.
pub uninterp spec fn events_of(content: Seq<char>) -> Seq<MdEvent>;

/// The HTML that the markup engine renders for the text after the i-th
/// image node's URL has been replaced by the i-th of the given URLs (a
/// missing URL leaves the authored one, an extra URL is unused): a function
/// of the text and those URLs alone. The library always passes the
/// published locations it computed itself, so "rewrite, then render" is
/// stated by every caller's contract rather than buried in a trusted body.
pub uninterp spec fn rendered_html_of(content: Seq<char>, image_urls: Seq<Seq<char>>) -> Seq<char>;

/// Relies on the markup node data: tells the node kinds the library reads
/// apart, moving out their fields.
#[verifier::external_body]
fn kind_of(v: &comrak::nodes::NodeValue) -> MdKind {
    match v {
        comrak::nodes::NodeValue::FrontMatter(s) => MdKind::FrontMatter(s.clone()),
        comrak::nodes::NodeValue::Heading(h) => MdKind::Heading(h.level),
        comrak::nodes::NodeValue::Text(t) => MdKind::Text(t.to_string()),
        comrak::nodes::NodeValue::Paragraph => MdKind::Paragraph,
        comrak::nodes::NodeValue::CodeBlock(b) => MdKind::CodeBlock(b.literal.clone()),
        comrak::nodes::NodeValue::Image(l) => MdKind::Image(l.url.clone()),
        _ => MdKind::Other,
    }
}

/// Relies on `comrak::parse_document` and the tree's `traverse` iterator:
/// parsing is a pure function of the text and the fixed options (front
/// matter fenced by `---`), so the event stream is a function of the
/// characters alone.
#[verifier::external_body]
pub(crate) fn parse_events(content: &str) -> (r: Vec<MdEvent>)
    ensures
        r@ == events_of(content@),
{
    let mut options = comrak::Options::default();
    options.extension.front_matter_delimiter = Some("---".to_string());
    let arena = comrak::Arena::new();
    let root = comrak::parse_document(&arena, content, &options);
    let mut out = Vec::new();
    for e in root.traverse() {
        out.push(match e {
            comrak::arena_tree::NodeEdge::Start(n) => MdEvent::Start(kind_of(&n.data.borrow().value)),
            comrak::arena_tree::NodeEdge::End(_) => MdEvent::End,
        });
    }
    out
}

pub open spec fn string_views(v: Seq<String>) -> Seq<Seq<char>> {
    Seq::new(v.len(), |i: int| v[i]@)
}

/// Relies on `comrak::parse_document` and `comrak::format_html`: parses the
/// text with the same fixed options as `parse_events` (plus heading anchor
/// ids generated by the engine's own anchorizer), assigns the given URLs to
/// the image nodes in pre-order, and renders the tree — the assignment
/// happens before the render reads it. Parsing and rendering are pure
/// functions of the text and of the assigned URLs; the body only moves the
/// given values in.
///
/// The heading ids come from the engine's anchorizer, while the outline's
/// anchors are slugs of the heading text; for plain titles the two agree,
/// but a title with punctuation the two treat differently (an apostrophe,
/// say) gives an outline link that misses its heading. Making them agree
/// would need the library's slug inside the engine's render, which only an
/// adapter implementing the engine's trait could do, and such an impl
/// cannot stand in verified code.
#[verifier::external_body]
pub(crate) fn render_html(content: &str, image_urls: &Vec<String>) -> (r: String)
    ensures
        r@ == rendered_html_of(content@, string_views(image_urls@)),
{
    let mut options = comrak::Options::default();
    options.extension.front_matter_delimiter = Some("---".to_string());
    options.extension.header_id_prefix = Some(String::new());
    let arena = comrak::Arena::new();
    let root = comrak::parse_document(&arena, content, &options);
    let mut urls = image_urls.iter();
    for e in root.traverse() {
        let n = match e { comrak::arena_tree::NodeEdge::Start(n) => n, _ => continue };
        if let comrak::nodes::NodeValue::Image(ref mut link) = n.data.borrow_mut().value {
            if let Some(u) = urls.next() { link.url = u.clone(); }
        }
    }
    let mut out = String::new();
    comrak::format_html(root, &options, &mut out).unwrap();
    out
}

} // verus!
