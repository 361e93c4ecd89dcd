//! The shape of a command line: for now a single command.

use vstd::prelude::*;

verus! {

/// A command line built from commands of type `C`.
#[derive(Debug, PartialEq, Eq)]
pub enum CommandNode<C> {
    Single(C),
}

impl<C: View> View for CommandNode<C> {
    type V = CommandNode<C::V>;

    open spec fn view(&self) -> CommandNode<C::V> {
        match self {
            CommandNode::Single(c) => CommandNode::Single(c@),
        }
    }
}

} // verus!
