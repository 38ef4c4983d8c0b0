//! The commands that carry out a migration, and the list of them that is
//! handed to the user.

use crate::format_list::{format_list, list_text, texts, Render};
use vstd::prelude::*;
use vstd::string::StringExecFns;

verus! {

/// One instruction to the state tool, or none.
#[derive(PartialEq, Debug)]
pub enum Command {
    /// Move the resource at `source` to `target`.
    MV { source: String, target: String },
    /// Remove the resource at the address.
    RM(String),
    /// Do nothing.
    NoOp,
}

/// What a [`Command`] stands for.
pub enum CommandView {
    MV { source: Seq<char>, target: Seq<char> },
    RM(Seq<char>),
    NoOp,
}

impl CommandView {
    /// The command line of a move or a removal. `NoOp` has none, and stands
    /// here with the empty text.
    pub open spec fn text(self) -> Seq<char> {
        match self {
            CommandView::MV { source, target } => "terraform state mv "@ + source + " "@ + target,
            CommandView::RM(address) => "terraform state rm "@ + address,
            CommandView::NoOp => Seq::empty(),
        }
    }
}

impl View for Command {
    type V = CommandView;

    open spec fn view(&self) -> CommandView {
        match self {
            Command::MV { source, target } => CommandView::MV { source: source@, target: target@ },
            Command::RM(address) => CommandView::RM(address@),
            Command::NoOp => CommandView::NoOp,
        }
    }
}

impl Render for Command {
    /// Only a move or a removal has a command line.
    open spec fn renders(&self) -> bool {
        !(self is NoOp)
    }

    open spec fn text(&self) -> Seq<char> {
        self@.text()
    }

    fn to_string(&self) -> (out: String) {
        match self {
            Command::MV { source, target } => {
                let mut out = String::from_str("terraform state mv ");
                out.append(source.as_str());
                out.append(" ");
                out.append(target.as_str());
                out
            },
            Command::RM(address) => {
                let mut out = String::from_str("terraform state rm ");
                out.append(address.as_str());
                out
            },
            Command::NoOp => unreached(),
        }
    }
}

/// What the commands of `commands` stand for, in order.
pub open spec fn command_views(commands: Seq<Command>) -> Seq<CommandView> {
    commands.map_values(|c: Command| c@)
}

/// `commands` without the `NoOp`s, the others in their order.
pub open spec fn effective(commands: Seq<CommandView>) -> Seq<CommandView> {
    commands.filter(|c: CommandView| !(c is NoOp))
}

/// A sequence that holds no `NoOp` is its own effective part.
pub proof fn lemma_effective_of_effective(commands: Seq<CommandView>)
    requires
        forall|i: int| 0 <= i < commands.len() ==> !(commands[i] is NoOp),
    ensures
        effective(commands) == commands,
    decreases commands.len(),
{
    reveal(Seq::filter);
    if commands.len() > 0 {
        lemma_effective_of_effective(commands.drop_last());
        assert(commands.drop_last().push(commands.last()) =~= commands);
    }
}

/// Dropping the `NoOp`s a second time changes nothing.
pub proof fn lemma_effective_idempotent(commands: Seq<CommandView>)
    ensures
        effective(effective(commands)) == effective(commands),
{
    let keep = |c: CommandView| !(c is NoOp);
    assert forall|i: int| 0 <= i < effective(commands).len() implies !(effective(
        commands,
    )[i] is NoOp) by {
        commands.lemma_filter_pred(keep, i);
    }
    lemma_effective_of_effective(effective(commands));
}

/// The commands of a migration, in the order in which they are to be run.
#[derive(PartialEq, Debug)]
pub struct Commands {
    pub elements: Vec<Command>,
}

impl View for Commands {
    type V = Seq<CommandView>;

    open spec fn view(&self) -> Seq<CommandView> {
        command_views(self.elements@)
    }
}

impl Commands {
    /// The list holds no `NoOp`.
    pub open spec fn wf(&self) -> bool {
        forall|i: int| 0 <= i < self.elements@.len() ==> !(self.elements@[i] is NoOp)
    }

    /// The list of the commands of `elements` that are not `NoOp`, in their
    /// order.
    pub fn new(elements: Vec<Command>) -> (commands: Self)
        ensures
            commands.wf(),
            commands@ == effective(command_views(elements@)),
    {
        let ghost all = command_views(elements@);
        let ghost keep = |c: CommandView| !(c is NoOp);
        let mut kept: Vec<Command> = Vec::new();
        proof {
            reveal(Seq::filter);
            assert(all.take(0).filter(keep) =~= command_views(kept@));
        }
        for command in it: elements
            invariant
                command_views(it.seq()) == all,
                keep == |c: CommandView| !(c is NoOp),
                forall|i: int| 0 <= i < kept@.len() ==> !(kept@[i] is NoOp),
                command_views(kept@) == all.take(it.index() as int).filter(keep),
        {
            let ghost before = command_views(kept@);
            proof {
                reveal(Seq::filter);
                assert(all.take(it.index() + 1).drop_last() =~= all.take(it.index() as int));
                assert(all.take(it.index() + 1).last() == command@);
            }
            match command {
                Command::NoOp => {},
                _ => {
                    kept.push(command);
                    proof {
                        assert(command_views(kept@) =~= before.push(command@));
                    }
                },
            }
        }
        proof {
            assert(all.take(all.len() as int) =~= all);
        }
        Commands { elements: kept }
    }
}

impl Render for Commands {
    /// A list renders where each of its commands does.
    open spec fn renders(&self) -> bool {
        self.wf()
    }

    /// One command line per command.
    open spec fn text(&self) -> Seq<char> {
        list_text(texts(self.elements@))
    }

    fn to_string(&self) -> (out: String) {
        format_list(self.elements.as_slice())
    }
}

} // verus!
