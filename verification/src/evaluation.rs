use vstd::prelude::*;
use crate::error::Halt;
use crate::term::Term;

verus! {

/// Why no program came out of the generation.
#[derive(Debug, PartialEq, Eq)]
pub enum GenerationError {
    /// The generator stopped.
    Halted(Halt),
    /// The program of a function without parameters failed when it was
    /// evaluated. `function` is the position of the function among the
    /// generator's functions without parameters, `message` what the
    /// evaluator said.
    Evaluation { function: usize, message: String },
}

/// What is to be done next on the way to a program.
#[derive(Debug, PartialEq, Eq)]
pub enum Next {
    /// Assemble the program.
    Assemble,
    /// Build the program of a function without parameters and evaluate it.
    Build { function: usize },
    /// Give up.
    Fail(GenerationError),
}

/// What follows when assembling a program, or building the program of a
/// function without parameters, has stopped; `waiting` are the functions
/// whose programs wait for a value, the innermost last, and `count` is the
/// number of functions without parameters. A request for the value of a
/// function is followed by building its program, unless the generator has
/// no such function or the function waits for a value itself; every other
/// stop is final.
pub open spec fn next_after_halt(waiting: Seq<usize>, halt: Halt, count: usize) -> (
    Next,
    Seq<usize>,
) {
    match halt {
        Halt::Evaluate { function } => if function >= count {
            (Next::Fail(GenerationError::Halted(Halt::Missing)), waiting)
        } else if waiting.contains(function) {
            (Next::Fail(GenerationError::Halted(Halt::ImpossibleShape)), waiting)
        } else {
            (Next::Build { function }, waiting.push(function))
        },
        other => (Next::Fail(GenerationError::Halted(other)), waiting),
    }
}

/// Whether a function is among those that wait for a value.
pub fn is_waiting(waiting: &Vec<usize>, function: usize) -> (r: bool)
    ensures
        r == waiting@.contains(function),
{
    let mut i: usize = 0;
    while i < waiting.len()
        invariant
            i <= waiting.len(),
            forall|j: int| 0 <= j < i ==> waiting@[j] != function,
        decreases waiting.len() - i,
    {
        if waiting[i] == function {
            return true;
        }
        i = i + 1;
    }
    false
}

/// Decides what follows when assembling or building has stopped.
pub fn after_halt(waiting: &mut Vec<usize>, halt: Halt, count: usize) -> (r: Next)
    ensures
        (r, final(waiting)@) == next_after_halt(old(waiting)@, halt, count),
{
    match halt {
        Halt::Evaluate { function } => {
            if function >= count {
                Next::Fail(GenerationError::Halted(Halt::Missing))
            } else if is_waiting(waiting, function) {
                Next::Fail(GenerationError::Halted(Halt::ImpossibleShape))
            } else {
                waiting.push(function);
                Next::Build { function }
            }
        },
        other => Next::Fail(GenerationError::Halted(other)),
    }
}

/// What follows the evaluation of the program of the innermost function
/// that waits: its value, to be supplied to the generator, and then the
/// program of the function that waited before it, or the program itself
/// where none waits any more. A failed evaluation is final and carries what
/// the evaluator said.
pub fn after_evaluation(waiting: &mut Vec<usize>, outcome: Result<Term, String>) -> (r: Result<
    (usize, Term, Next),
    GenerationError,
>)
    ensures
        match r {
            Ok((function, value, next)) => old(waiting)@.len() > 0 && function == old(
                waiting,
            )@.last() && outcome == Ok::<Term, String>(value) && final(waiting)@ == old(
                waiting,
            )@.drop_last() && next == (if final(waiting)@.len() == 0 {
                Next::Assemble
            } else {
                Next::Build { function: final(waiting)@.last() }
            }),
            Err(e) => final(waiting)@ == old(waiting)@ && match outcome {
                Ok(_) => old(waiting)@.len() == 0 && e == GenerationError::Halted(Halt::Malformed),
                Err(message) => if old(waiting)@.len() == 0 {
                    e == GenerationError::Halted(Halt::Malformed)
                } else {
                    e == (GenerationError::Evaluation {
                        function: old(waiting)@.last(),
                        message,
                    })
                },
            },
        },
{
    if waiting.len() == 0 {
        return Err(GenerationError::Halted(Halt::Malformed));
    }
    let function = waiting[waiting.len() - 1];
    match outcome {
        Ok(value) => {
            let _ = waiting.pop();
            let next = if waiting.len() == 0 {
                Next::Assemble
            } else {
                Next::Build { function: waiting[waiting.len() - 1] }
            };
            Ok((function, value, next))
        },
        Err(message) => Err(GenerationError::Evaluation { function, message }),
    }
}

} // verus!
