//! A migration: an ordered list of rules, applied to every element of a
//! state.

use crate::command::{command_views, effective, Command, CommandView, Commands};
use crate::element::{Element, ElementView};
use crate::state::{element_views, State};
use crate::transformation::{Transformation, TransformationView};
use vstd::prelude::*;

verus! {

/// A named list of rules. The rules are applied in the order of the list,
/// each to what the rule before it has left.
#[derive(PartialEq, Debug)]
pub struct Migration {
    pub name: String,
    pub description: String,
    pub transformations: Vec<Transformation>,
}

/// What a [`Migration`] stands for.
pub struct MigrationView {
    pub name: Seq<char>,
    pub description: Seq<char>,
    pub transformations: Seq<TransformationView>,
}

/// What the rules of `rules` stand for, in order.
pub open spec fn transformation_views(rules: Seq<Transformation>) -> Seq<TransformationView> {
    rules.map_values(|t: Transformation| t@)
}

impl View for Migration {
    type V = MigrationView;

    open spec fn view(&self) -> MigrationView {
        MigrationView {
            name: self.name@,
            description: self.description@,
            transformations: transformation_views(self.transformations@),
        }
    }
}

/// The element that `rules`, applied one after the other, make of `e`, and
/// the command of each rule in turn. Each rule sees what the rules before it
/// have made of the element.
pub open spec fn chain(rules: Seq<TransformationView>, e: ElementView) -> (
    ElementView,
    Seq<CommandView>,
)
    decreases rules.len(),
{
    if rules.len() == 0 {
        (e, Seq::empty())
    } else {
        let (reached, commands) = chain(rules.drop_last(), e);
        let (next, command) = rules.last().apply(reached);
        (next, commands.push(command))
    }
}

impl MigrationView {
    /// What the migration makes of one element, with one command per rule.
    pub open spec fn apply_element(self, e: ElementView) -> (ElementView, Seq<CommandView>) {
        chain(self.transformations, e)
    }

    /// The state after the migration: at each position what the migration
    /// makes of the element at that position.
    pub open spec fn end_state(self, state: Seq<ElementView>) -> Seq<ElementView> {
        state.map_values(|e: ElementView| self.apply_element(e).0)
    }

    /// The commands of all elements, element by element, and for each element
    /// rule by rule.
    pub open spec fn all_commands(self, state: Seq<ElementView>) -> Seq<CommandView> {
        state.map_values(|e: ElementView| self.apply_element(e).1).flatten()
    }

    /// The commands that carry the migration out: all of them but the
    /// `NoOp`s.
    pub open spec fn commands(self, state: Seq<ElementView>) -> Seq<CommandView> {
        effective(self.all_commands(state))
    }
}

impl Migration {
    /// Applies the migration to `state`: the state that results, and the
    /// commands that lead from `state` to it.
    pub fn apply(&self, state: &State) -> (result: (State, Commands))
        ensures
            result.0@ == self@.end_state(state@),
            result.0@.len() == state@.len(),
            forall|i: int|
                0 <= i < state@.len() ==> result.0@[i] == self@.apply_element(state@[i]).0,
            result.1@ == self@.commands(state@),
            result.1.wf(),
    {
        let ghost per_element = |e: ElementView| self@.apply_element(e).1;
        let mut new_elements: Vec<Element> = Vec::new();
        let mut commands: Vec<Command> = Vec::new();
        let mut i: usize = 0;
        proof {
            assert(element_views(new_elements@) =~= self@.end_state(state@.take(0)));
            assert(state@.take(0).map_values(per_element) =~= Seq::empty());
            assert(command_views(commands@) =~= self@.all_commands(state@.take(0)));
        }
        while i < state.elements.len()
            invariant
                i <= state.elements@.len(),
                per_element == |e: ElementView| self@.apply_element(e).1,
                element_views(new_elements@) == self@.end_state(state@.take(i as int)),
                command_views(commands@) == self@.all_commands(state@.take(i as int)),
            decreases state.elements@.len() - i,
        {
            let ghost elements_before = element_views(new_elements@);
            let ghost commands_before = command_views(commands@);
            let ghost earlier = state@.take(i as int);
            let (new_element, mut new_commands) = self.apply_element(&state.elements[i]);
            proof {
                let e = state@[i as int];
                assert(state@.take(i + 1) =~= earlier.push(e));
                assert(self@.end_state(earlier.push(e)) =~= self@.end_state(earlier).push(
                    new_element@,
                ));
                assert(earlier.push(e).map_values(per_element) =~= earlier.map_values(
                    per_element,
                ).push(command_views(new_commands@)));
                earlier.map_values(per_element).lemma_flatten_push(command_views(new_commands@));
            }
            new_elements.push(new_element);
            commands.append(&mut new_commands);
            proof {
                assert(element_views(new_elements@) =~= elements_before.push(new_element@));
                assert(command_views(commands@) =~= commands_before + self@.apply_element(
                    state@[i as int],
                ).1);
            }
            i += 1;
        }
        proof {
            assert(state@.take(i as int) =~= state@);
        }
        (State { elements: new_elements }, Commands::new(commands))
    }

    /// Applies the rules to `element`, one after the other.
    pub fn apply_element(&self, element: &Element) -> (result: (Element, Vec<Command>))
        ensures
            (result.0@, command_views(result.1@)) == self@.apply_element(element@),
    {
        let ghost rules = self@.transformations;
        let mut acc = element.clone();
        let mut commands: Vec<Command> = Vec::new();
        let mut i: usize = 0;
        proof {
            assert(command_views(commands@) =~= chain(rules.take(0), element@).1);
        }
        while i < self.transformations.len()
            invariant
                i <= self.transformations@.len(),
                rules == self@.transformations,
                (acc@, command_views(commands@)) == chain(rules.take(i as int), element@),
            decreases self.transformations@.len() - i,
        {
            let ghost before = command_views(commands@);
            let transformation_result = self.transformations[i].apply(&acc);
            proof {
                assert(rules.take(i + 1).drop_last() =~= rules.take(i as int));
                assert(rules.take(i + 1).last() == self.transformations@[i as int]@);
            }
            acc = transformation_result.element;
            commands.push(transformation_result.command);
            proof {
                assert(command_views(commands@) =~= before.push(transformation_result.command@));
            }
            i += 1;
        }
        proof {
            assert(rules.take(i as int) =~= rules);
        }
        (acc, commands)
    }
}

} // verus!
