use crate::ast::AstNode;
use crate::builtins::{initial_context, initial_store, Store};
use crate::stacklike::{exec_check_spec, BaseContext, Context, Checked, ExecContext, Stack, TyList};
use crate::types::{is_abort, Gen, TypeError};
use vstd::prelude::*;

verus! {

/// The context of a program that has not started: empty stack, store `store`.
pub open spec fn start_context(store: Store) -> ExecContext {
    BaseContext { stack: Stack(TyList::Nil), store, child_context: None }
}

/// Checking `nodes[i..]` one after the other from context `c`, with `next`
/// the next fresh type variable; the first error ends the check.
pub open spec fn typecheck_from(c: ExecContext, nodes: Seq<AstNode>, i: int, next: Gen) -> Result<
    ExecContext,
    TypeError,
>
    decreases nodes.len() - i,
{
    if i < 0 || i >= nodes.len() {
        Ok(c)
    } else {
        let (r, n1) = exec_check_spec(c, nodes[i], next);
        match r {
            Err(e) => Err(e),
            Ok(c1) => typecheck_from(c1, nodes, i + 1, n1),
        }
    }
}

/// The outcome of checking a whole program.
pub open spec fn typecheck_spec(ast: Seq<AstNode>) -> Result<ExecContext, TypeError> {
    typecheck_from(start_context(initial_store()), ast, 0, 0)
}

/// Whether checking the program reaches a state from which it cannot go on.
pub open spec fn typecheck_aborts(ast: Seq<AstNode>) -> bool {
    typecheck_spec(ast) matches Err(e) && is_abort(e)
}

/// Checks a program from the built-in store and reports every outcome,
/// including those where checking cannot go on.
pub fn typecheck_checked(ast: &Vec<AstNode>) -> (r: Result<ExecContext, TypeError>)
    ensures
        r == typecheck_spec(ast@),
{
    let mut ctx = BaseContext::<Stack>::new(initial_context());
    let mut next_gen: Gen = 0;
    let mut i: usize = 0;
    assert(ctx == start_context(initial_store()));
    while i < ast.len()
        invariant
            i <= ast@.len(),
            typecheck_from(ctx, ast@, i as int, next_gen) == typecheck_spec(ast@),
        decreases ast@.len() - i,
    {
        match ctx.check_node(&ast[i], &mut next_gen) {
            Err(e) => return Err(e),
            Ok(Checked::Continue(c)) => {
                ctx = c;
            },
            Ok(Checked::Closed(_)) => {
                proof {
                    assert(false);
                }
                return Err(TypeError::NotInFunction);
            },
        }
        i = i + 1;
    }
    Ok(ctx)
}

/// Checks a program: the context after its last node, or the first error.
pub fn typecheck(ast: &Vec<AstNode>) -> (r: Result<ExecContext, TypeError>)
    requires
        !typecheck_aborts(ast@),
    ensures
        r == typecheck_spec(ast@),
        r matches Err(e) ==> !is_abort(e),
{
    typecheck_checked(ast)
}

} // verus!
