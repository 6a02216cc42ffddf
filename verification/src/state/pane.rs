//! The panes of the shell.
use vstd::prelude::*;

verus! {

/// The two panes of the shell.
#[derive(Debug, Clone, Copy, PartialEq, Eq, Structural)]
pub enum View {
    Servers,
    Friends,
}

} // verus!
