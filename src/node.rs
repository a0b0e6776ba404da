use vstd::prelude::*;

verus! {

/// The kind of a node in a syntax tree built over token trees.
#[derive(Clone, Copy, Debug, PartialEq, Eq, Hash, PartialOrd, Ord, Structural)]
pub enum NodeType {
    File,
    Group,
    Punct,
    Ident,
    Literal,
}

} // verus!
