use vstd::prelude::*;

verus! {

/// Why generation stopped before it had a program.
#[derive(Debug, Clone, Copy, PartialEq, Eq)]
pub enum Halt {
    /// A construct that the generator does not lower.
    Unsupported,
    /// A type, a pattern or a value of a shape that the generator takes to
    /// be impossible once a program has passed type inference.
    ImpossibleShape,
    /// A function or a data type that the registries do not hold.
    Missing,
    /// A list of instructions that breaks the stack discipline, or a literal
    /// that cannot be read.
    Malformed,
    /// The value of a function without parameters is needed and has not
    /// been supplied yet. `function` is its position among the generator's
    /// functions without parameters.
    Evaluate { function: usize },
}

} // verus!
