//! A state: the resources of an inventory, in the order in which they were
//! listed.

use crate::element::{rendered_char_diff, Element, ElementView};
use crate::format_list::{format_list, list_text, texts, Render};
use crate::text::{lines_of, split_lines, texts_of};
use vstd::prelude::*;

verus! {

/// The entries of an inventory. The order matters: the entry at a position
/// before a migration and the entry at that position after it belong
/// together.
#[derive(PartialEq, Debug)]
pub struct State {
    pub elements: Vec<Element>,
}

/// What the elements of `elements` stand for, in order.
pub open spec fn element_views(elements: Seq<Element>) -> Seq<ElementView> {
    elements.map_values(|e: Element| e@)
}

/// One resource for each address of `addresses`, in order.
pub open spec fn resources(addresses: Seq<Seq<char>>) -> Seq<ElementView> {
    addresses.map_values(|address: Seq<char>| ElementView::Resource(address))
}

impl View for State {
    type V = Seq<ElementView>;

    open spec fn view(&self) -> Seq<ElementView> {
        element_views(self.elements@)
    }
}

impl State {
    /// The state that `content` lists, one resource on each line.
    pub fn new(content: &str) -> (state: Self)
        ensures
            state@ == resources(lines_of(content@)),
    {
        let lines = split_lines(content);
        let ghost addresses = texts_of(lines@);
        let mut elements: Vec<Element> = Vec::new();
        for line in it: lines
            invariant
                texts_of(it.seq()) == addresses,
                element_views(elements@) == resources(addresses.take(it.index() as int)),
        {
            let ghost before = element_views(elements@);
            elements.push(Element::Resource(line));
            proof {
                assert(element_views(elements@) =~= before.push(ElementView::Resource(line@)));
                assert(addresses.take(it.index() + 1) =~= addresses.take(it.index() as int).push(
                    line@,
                ));
            }
        }
        proof {
            assert(addresses.take(addresses.len() as int) =~= addresses);
        }
        State { elements }
    }

    /// The difference between each element of this state and the element at
    /// the same position in `other`. Where one state is longer than the
    /// other, the elements that have no partner are left out.
    pub fn diff(&self, other: &State) -> (lines: Vec<String>)
        ensures
            lines@.len() == if self@.len() <= other@.len() {
                self@.len()
            } else {
                other@.len()
            },
            forall|i: int|
                0 <= i < lines@.len() ==> lines@[i]@ == rendered_char_diff(
                    self@[i].text(),
                    other@[i].text(),
                ),
    {
        let pairs: usize = if self.elements.len() <= other.elements.len() {
            self.elements.len()
        } else {
            other.elements.len()
        };
        let mut lines: Vec<String> = Vec::new();
        let mut i: usize = 0;
        while i < pairs
            invariant
                i <= pairs,
                pairs <= self.elements@.len(),
                pairs <= other.elements@.len(),
                lines@.len() == i,
                forall|j: int|
                    0 <= j < i ==> lines@[j]@ == rendered_char_diff(
                        self@[j].text(),
                        other@[j].text(),
                    ),
            decreases pairs - i,
        {
            let line = self.elements[i].diff(&other.elements[i]);
            lines.push(line);
            i += 1;
        }
        lines
    }
}

impl Render for State {
    open spec fn renders(&self) -> bool {
        true
    }

    /// One line per resource; an empty place gets no line.
    open spec fn text(&self) -> Seq<char> {
        list_text(texts(self.elements@))
    }

    fn to_string(&self) -> (out: String) {
        format_list(self.elements.as_slice())
    }
}

} // verus!
