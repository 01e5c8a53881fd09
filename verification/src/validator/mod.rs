//! Semantic validation: identifier resolution, loop labelling, and type
//! checking, in this order.

pub mod binding;
pub mod checker;
pub mod fresh;
pub mod labeler;
pub mod labels;
pub mod loops;
pub mod renaming;
pub mod resolver;
pub mod scopes;
pub mod types;

use vstd::prelude::*;
use crate::error::{Error, ErrorView};
use crate::parser::ast::{AST, ProgramView, program_targets_ok};
use crate::validator::resolver::resolve_program;
use crate::validator::labeler::label_program;
use crate::validator::checker::typecheck_program;
use crate::validator::binding::program_bound;
use crate::validator::fresh::{program_locals, all_different, lemma_resolved_names_different};

verus! {

/// A translation unit validated: its identifiers resolved, then its loops
/// labelled, then its types checked. The result is the resolved and labelled
/// unit with the counter afterwards, or the error of the first pass that
/// fails.
pub open spec fn validated(p: ProgramView, c: usize) -> Result<(ProgramView, usize), ErrorView> {
    match scopes::resolve(p, c) {
        Ok((resolved, c1)) => match labels::label(resolved, c1) {
            Ok((labelled, c2)) => match types::check(labelled) {
                Ok(()) => Ok((labelled, c2)),
                Err(e) => Err(e),
            },
            Err(e) => Err(e),
        },
        Err(e) => Err(e),
    }
}

/// Validates a translation unit. Unique names and labels are numbered from
/// `counter` on. In a validated unit every assignment assigns to a variable,
/// every name that is used is bound by a declaration that encloses the
/// use, every `break` and `continue` carries the label of the loop around
/// it, and the variables and the parameters of defined functions have names
/// that are all different, as long as there are no more of them than the
/// counter has values.
pub fn validate(ast: &AST, counter: &mut usize) -> (r: Result<AST, Error>)
    ensures
        match r {
            Ok(out) => validated(ast@, *old(counter)) == Ok::<(ProgramView, usize), ErrorView>(
                (out@, *final(counter)),
            ),
            Err(e) => validated(ast@, *old(counter)) == Err::<(ProgramView, usize), ErrorView>(
                e@,
            ),
        },
        r matches Ok(out) ==> program_targets_ok(out@),
        r matches Ok(out) ==> program_bound(out@),
        r matches Ok(out) ==> labels::program_labelled(out@),
        r matches Ok(out) ==> (program_locals(ast@).len() <= usize::MAX ==> all_different(
            program_locals(out@),
        )),
{
    proof {
        if program_locals(ast@).len() <= usize::MAX && scopes::resolve(ast@, *counter) is Ok
            && labels::label(
            scopes::resolve(ast@, *counter)->Ok_0.0,
            scopes::resolve(ast@, *counter)->Ok_0.1,
        ) is Ok {
            lemma_resolved_names_different(ast@, *counter);
        }
    }
    let resolved = resolve_program(&ast.program, counter)?;
    let labelled = label_program(&resolved, counter)?;
    match typecheck_program(&labelled) {
        Ok(()) => Ok(AST { program: labelled }),
        Err(e) => Err(e),
    }
}

} // verus!
