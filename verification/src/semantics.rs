//! A denotational reading of command trees, for the laws that relate
//! whole trees: which simple commands a tree runs, in which order, and
//! which exit status it yields, when the operating system answers each
//! simple command with the status `st` gives it.

use vstd::prelude::*;

use crate::executor::takes_right;
use crate::utils::{CommandV, ConditionalType, SimpleCommandV};

verus! {

/// The exit status a tree yields: a simple command's status comes from
/// the oracle, a pipeline returns its rightmost stage's status, a
/// sequence its second half's, a background launch returns 0 at once,
/// a redirection is transparent, and a conditional short-circuits.
pub open spec fn status_of(c: CommandV, st: spec_fn(SimpleCommandV) -> i32) -> i32
    decreases c,
{
    match c {
        CommandV::Simple(sc) => st(sc),
        CommandV::Pipe { left, right } => status_of(*right, st),
        CommandV::Redirect { child_command, .. } => status_of(*child_command, st),
        CommandV::Sequence { first, second } => status_of(*second, st),
        CommandV::Background { .. } => 0,
        CommandV::Conditional { left, right, operator } => {
            if takes_right(operator, status_of(*left, st)) {
                status_of(*right, st)
            } else {
                status_of(*left, st)
            }
        },
    }
}

/// The simple commands a tree causes to run, in order: the side
/// effects of executing it when the operating system answers each
/// simple command with the status `st` gives it.
pub open spec fn runs_of(c: CommandV, st: spec_fn(SimpleCommandV) -> i32) -> Seq<SimpleCommandV>
    decreases c,
{
    match c {
        CommandV::Simple(sc) => seq![sc],
        CommandV::Pipe { left, right } => runs_of(*left, st) + runs_of(*right, st),
        CommandV::Redirect { child_command, .. } => runs_of(*child_command, st),
        CommandV::Sequence { first, second } => runs_of(*first, st) + runs_of(*second, st),
        CommandV::Background { child_command } => runs_of(*child_command, st),
        CommandV::Conditional { left, right, operator } => {
            if takes_right(operator, status_of(*left, st)) {
                runs_of(*left, st) + runs_of(*right, st)
            } else {
                runs_of(*left, st)
            }
        },
    }
}

/// Law: `;` is associative. However `A ; B ; C` is bracketed, the same
/// commands run in the same order, and the status is C's.
pub proof fn lemma_sequence_associative(
    a: CommandV,
    b: CommandV,
    c: CommandV,
    st: spec_fn(SimpleCommandV) -> i32,
)
    ensures
        runs_of(
            CommandV::Sequence {
                first: Box::new(
                    CommandV::Sequence { first: Box::new(a), second: Box::new(b) },
                ),
                second: Box::new(c),
            },
            st,
        ) == runs_of(
            CommandV::Sequence {
                first: Box::new(a),
                second: Box::new(
                    CommandV::Sequence { first: Box::new(b), second: Box::new(c) },
                ),
            },
            st,
        ),
        status_of(
            CommandV::Sequence {
                first: Box::new(
                    CommandV::Sequence { first: Box::new(a), second: Box::new(b) },
                ),
                second: Box::new(c),
            },
            st,
        ) == status_of(c, st),
        status_of(
            CommandV::Sequence {
                first: Box::new(a),
                second: Box::new(
                    CommandV::Sequence { first: Box::new(b), second: Box::new(c) },
                ),
            },
            st,
        ) == status_of(c, st),
{
    let ab = CommandV::Sequence { first: Box::new(a), second: Box::new(b) };
    let bc = CommandV::Sequence { first: Box::new(b), second: Box::new(c) };
    assert(status_of(bc, st) == status_of(c, st));
    assert(runs_of(ab, st) == runs_of(a, st) + runs_of(b, st));
    assert(runs_of(bc, st) == runs_of(b, st) + runs_of(c, st));
    assert((runs_of(a, st) + runs_of(b, st)) + runs_of(c, st) =~= runs_of(a, st) + (runs_of(b, st)
        + runs_of(c, st)));
}

/// Law: short-circuit. `A && B` runs B exactly when A exits 0;
/// `A || B` runs B exactly when A exits nonzero. In both cases the
/// status is B's when B ran, A's otherwise.
pub proof fn lemma_conditional_short_circuit(
    a: CommandV,
    b: CommandV,
    st: spec_fn(SimpleCommandV) -> i32,
)
    ensures
        runs_of(
            CommandV::Conditional {
                left: Box::new(a),
                right: Box::new(b),
                operator: ConditionalType::And,
            },
            st,
        ) == if status_of(a, st) == 0 {
            runs_of(a, st) + runs_of(b, st)
        } else {
            runs_of(a, st)
        },
        runs_of(
            CommandV::Conditional {
                left: Box::new(a),
                right: Box::new(b),
                operator: ConditionalType::Or,
            },
            st,
        ) == if status_of(a, st) != 0 {
            runs_of(a, st) + runs_of(b, st)
        } else {
            runs_of(a, st)
        },
{
}

/// Law: a pipeline's status is the status of its rightmost stage,
/// however many stages stand before it.
pub proof fn lemma_pipeline_status(
    a: CommandV,
    b: CommandV,
    c: CommandV,
    st: spec_fn(SimpleCommandV) -> i32,
)
    ensures
        status_of(
            CommandV::Pipe {
                left: Box::new(CommandV::Pipe { left: Box::new(a), right: Box::new(b) }),
                right: Box::new(c),
            },
            st,
        ) == status_of(c, st),
{
}

} // verus!
