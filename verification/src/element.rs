//! One entry of a state: a resource address, or the place that a removed
//! resource has left.

use crate::format_list::Render;
use vstd::prelude::*;

verus! {

/// One entry of a state.
#[derive(PartialEq, Debug)]
pub enum Element {
    /// A resource, by its address.
    Resource(String),
    /// The place of a resource that is no longer there.
    Empty,
}

/// What an [`Element`] stands for.
pub enum ElementView {
    Resource(Seq<char>),
    Empty,
}

impl ElementView {
    /// The address of a resource, and the empty text for an empty place.
    pub open spec fn text(self) -> Seq<char> {
        match self {
            ElementView::Resource(address) => address,
            ElementView::Empty => Seq::empty(),
        }
    }
}

impl View for Element {
    type V = ElementView;

    open spec fn view(&self) -> ElementView {
        match self {
            Element::Resource(address) => ElementView::Resource(address@),
            Element::Empty => ElementView::Empty,
        }
    }
}

impl Clone for Element {
    fn clone(&self) -> (copy: Self)
        ensures
            copy == *self,
    {
        match self {
            Element::Resource(address) => Element::Resource(address.clone()),
            Element::Empty => Element::Empty,
        }
    }
}

impl Render for Element {
    open spec fn renders(&self) -> bool {
        true
    }

    open spec fn text(&self) -> Seq<char> {
        self@.text()
    }

    fn to_string(&self) -> (out: String) {
        match self {
            Element::Resource(address) => address.clone(),
            Element::Empty => String::new(),
        }
    }
}

/// The text that `prettydiff::diff_chars` renders for the change from
/// `source` to `target`: the characters of both in the order of a longest
/// common subsequence, those only in `source` and those only in `target`
/// wrapped in terminal escape sequences.
pub uninterp spec fn rendered_char_diff(source: Seq<char>, target: Seq<char>) -> Seq<char>;

/// Calls `prettydiff::diff_chars` on the two texts and formats the changeset
/// it returns with that type's `Display`. The result depends on the two texts
/// alone: the styles are the crate's fixed defaults, and neither the terminal
/// nor the environment is consulted. Nothing is claimed of it but that it is
/// the rendering named above. The comparison builds a table of
/// `(source.len() + 1) * (target.len() + 1)` entries.
#[verifier::external_body]
fn render_char_diff(source: &str, target: &str) -> (out: String)
    ensures
        out@ == rendered_char_diff(source@, target@),
{
    prettydiff::diff_chars(source, target).to_string()
}

impl Element {
    /// The character-level difference between this element's text and
    /// `other`'s, rendered for a terminal.
    pub fn diff(&self, other: &Element) -> (out: String)
        ensures
            out@ == rendered_char_diff(self@.text(), other@.text()),
    {
        let source = self.to_string();
        let target = other.to_string();
        render_char_diff(source.as_str(), target.as_str())
    }
}

} // verus!
