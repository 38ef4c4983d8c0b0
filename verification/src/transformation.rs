//! One rule of a migration, and what it does to one element.

use crate::command::{Command, CommandView};
use crate::element::{Element, ElementView};
use crate::text::{contains, lemma_replace_absent, occurs, replace, replace_all};
use vstd::prelude::*;

verus! {

/// The two kinds of rule.
#[derive(Clone, Copy, PartialEq, Eq, Debug)]
pub enum TransformationType {
    /// Rewrite the addresses that hold the matcher.
    MV,
    /// Remove the resources whose address holds the matcher.
    RM,
}

/// What one rule makes of one element: the element that takes its place, and
/// the command that brings the change about.
pub struct TransformationResult {
    pub element: Element,
    pub command: Command,
}

/// One rule: a kind, the text it looks for, and, for a move, the text it puts
/// in its place.
#[derive(PartialEq, Debug)]
pub struct Transformation {
    pub kind: TransformationType,
    pub matcher: String,
    pub replacement: String,
}

/// What a [`Transformation`] stands for.
pub struct TransformationView {
    pub kind: TransformationType,
    pub matcher: Seq<char>,
    pub replacement: Seq<char>,
}

impl View for Transformation {
    type V = TransformationView;

    open spec fn view(&self) -> TransformationView {
        TransformationView {
            kind: self.kind,
            matcher: self.matcher@,
            replacement: self.replacement@,
        }
    }
}

impl TransformationView {
    /// A move replaces every occurrence of the matcher in the address by the
    /// replacement. Where that changes the address, the command moves the
    /// resource from the old address to the new one.
    pub open spec fn mv(self, e: ElementView) -> (ElementView, CommandView) {
        match e {
            ElementView::Resource(address) => {
                let moved = replace_all(address, self.matcher, self.replacement);
                (
                    ElementView::Resource(moved),
                    if moved == address {
                        CommandView::NoOp
                    } else {
                        CommandView::MV { source: address, target: moved }
                    },
                )
            },
            ElementView::Empty => (ElementView::Empty, CommandView::NoOp),
        }
    }

    /// A removal empties the place of a resource whose address holds the
    /// matcher, and the command removes the resource at that address.
    pub open spec fn rm(self, e: ElementView) -> (ElementView, CommandView) {
        match e {
            ElementView::Resource(address) => {
                if occurs(address, self.matcher) {
                    (ElementView::Empty, CommandView::RM(address))
                } else {
                    (e, CommandView::NoOp)
                }
            },
            ElementView::Empty => (ElementView::Empty, CommandView::NoOp),
        }
    }

    /// The element that takes the place of `e` under this rule, and the
    /// command that belongs to the change.
    pub open spec fn apply(self, e: ElementView) -> (ElementView, CommandView) {
        match self.kind {
            TransformationType::MV => self.mv(e),
            TransformationType::RM => self.rm(e),
        }
    }
}

/// A rule whose matcher does not occur in an element's address leaves the
/// element as it is and gives no command. An empty place has no address, and
/// every rule leaves it so.
pub proof fn lemma_unmatched_rule_changes_nothing(t: TransformationView, e: ElementView)
    requires
        e matches ElementView::Resource(address) ==> !occurs(address, t.matcher),
    ensures
        t.apply(e) == (e, CommandView::NoOp),
{
    if let ElementView::Resource(address) = e {
        lemma_replace_absent(address, t.matcher, t.replacement);
    }
}

impl Transformation {
    /// Applies the rule to `e`.
    pub fn apply(&self, e: &Element) -> (result: TransformationResult)
        ensures
            (result.element@, result.command@) == self@.apply(e@),
    {
        match self.kind {
            TransformationType::MV => self.mv(e),
            TransformationType::RM => self.rm(e),
        }
    }

    fn mv(&self, e: &Element) -> (result: TransformationResult)
        ensures
            (result.element@, result.command@) == self@.mv(e@),
    {
        match e {
            Element::Resource(address) => {
                let moved = replace(
                    address.as_str(),
                    self.matcher.as_str(),
                    self.replacement.as_str(),
                );
                let command = if moved == *address {
                    Command::NoOp
                } else {
                    Command::MV { source: address.clone(), target: moved.clone() }
                };
                TransformationResult { element: Element::Resource(moved), command }
            },
            Element::Empty => TransformationResult {
                element: Element::Empty,
                command: Command::NoOp,
            },
        }
    }

    fn rm(&self, e: &Element) -> (result: TransformationResult)
        ensures
            (result.element@, result.command@) == self@.rm(e@),
    {
        match e {
            Element::Resource(address) => {
                if contains(address.as_str(), self.matcher.as_str()) {
                    TransformationResult {
                        element: Element::Empty,
                        command: Command::RM(address.clone()),
                    }
                } else {
                    TransformationResult { element: e.clone(), command: Command::NoOp }
                }
            },
            Element::Empty => TransformationResult {
                element: Element::Empty,
                command: Command::NoOp,
            },
        }
    }
}

} // verus!
