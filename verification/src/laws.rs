use crate::ast::{nodes_tokens, parse_spec, scan, AstNode, StackMod, Token};
use crate::bindings::{
    binding_mentions, insert_spec, lemma_root_chain_ends, resolve_and_pop_spec, resolve_chain, resolve_spec, root_chain,
    Popped,
};
use crate::builtins::{
    bound_rename, builtin_entries, env_of, fn_rename, fty_rename, initial_store, instantiate_spec,
    list_rename, ty_rename, Scheme,
};
use crate::compile::{
    builtin_code_entries, code_env_of, compile_from, compile_spec, compile_start, compile_step,
    depth, join_spec, nesting_ok, CState,
};
use crate::env::{env_get, env_insert, env_keys, lemma_env_get_in_keys, lemma_env_insert, name_from, Env, Name};
use crate::merge::{
    arity_compatible, bound_lower, bound_merge, bound_sound, bound_upper, fn_meet, fty_merge,
    pair_merge, side, then_val, ty_glb, ty_lub, zip_merge, Side,
};
use crate::resolve::{bound_rg, fn_rg, fty_rg, list_rg, ty_rg, MAX_DEPTH};
use crate::stacklike::{
    exec_check_spec, fd_apply, fd_check_spec, fd_collect, fd_collect_from, fd_collect_to,
    fd_convert_to, fd_push_outputs, fd_replace, fd_take_all, list_reverse_onto, mod_stack_spec,
    single, stack_push_outputs, FDStack, stack_seq, stack_take_all,
    stack_take_one, BaseContext, Checked, ContextType, ExecContext, FDContext, FuncDef, Stack, StackLike,
    TyList,
};
use crate::typecheck::{start_context, typecheck_from, typecheck_spec};
use crate::types::{
    bound_contains, fn_contains, fty_as_ty, fty_contains, list_contains, list_seq, ty_contains,
    Binding, Bound, FList, FTy, Function, Gen, Ty, TypeError,
};
use vstd::prelude::*;

verus! {

// ----------------------------------------------------------------------
// The built-in functions of type checking and of the compiler
// ----------------------------------------------------------------------

proof fn lemma_env_of_keys(e: Seq<(Seq<char>, Scheme)>)
    ensures
        env_keys(env_of(e)) == e.map_values(|p: (Seq<char>, Scheme)| name_from(p.0)),
    decreases e.len(),
{
    if e.len() > 0 {
        lemma_env_of_keys(e.drop_first());
        assert(env_keys(env_of(e)) =~= e.map_values(|p: (Seq<char>, Scheme)| name_from(p.0)));
    } else {
        assert(env_keys(env_of(e)) =~= e.map_values(|p: (Seq<char>, Scheme)| name_from(p.0)));
    }
}

proof fn lemma_code_env_of_keys(e: Seq<(Seq<char>, Seq<char>)>)
    ensures
        env_keys(code_env_of(e)) == e.map_values(|p: (Seq<char>, Seq<char>)| name_from(p.0)),
    decreases e.len(),
{
    if e.len() > 0 {
        lemma_code_env_of_keys(e.drop_first());
        assert(env_keys(code_env_of(e)) =~= e.map_values(
            |p: (Seq<char>, Seq<char>)| name_from(p.0),
        ));
    } else {
        assert(env_keys(code_env_of(e)) =~= e.map_values(
            |p: (Seq<char>, Seq<char>)| name_from(p.0),
        ));
    }
}

/// Type checking and the compiler know the same built-in functions: the
/// two stores hold the same names, in the same order, so each name the
/// type checking accepts has code and the two stores have equally many entries,
/// eight: `'`, `?`, `id`, `dup`, `drop`, `=`, `add` and `sub`.
pub proof fn law_builtins_have_code(name: Name)
    ensures
        env_keys(initial_store()) == builtin_entries().map_values(
            |p: (Seq<char>, Scheme)| name_from(p.0),
        ),
        env_keys(initial_store()).len() == 8,
        env_keys(initial_store()) == env_keys(code_env_of(builtin_code_entries())),
        (env_get(initial_store(), name) is Some) == (env_get(
            code_env_of(builtin_code_entries()),
            name,
        ) is Some),
{
    lemma_env_of_keys(builtin_entries());
    lemma_code_env_of_keys(builtin_code_entries());
    assert(builtin_entries().map_values(|p: (Seq<char>, Scheme)| name_from(p.0))
        =~= builtin_code_entries().map_values(|p: (Seq<char>, Seq<char>)| name_from(p.0)));
    lemma_env_get_in_keys(initial_store(), name);
    lemma_env_get_in_keys(code_env_of(builtin_code_entries()), name);
}

// ----------------------------------------------------------------------
// The bindings
// ----------------------------------------------------------------------

/// A successful insertion never binds a variable to itself nor to a bound that
/// mentions it; a refused one leaves the bindings as they were.
pub proof fn law_insert_occurs_check(m: Map<Gen, Binding>, key: Gen, val: Binding)
    ensures
        ({
            let (r, m1) = insert_spec(m, key, val);
            &&& r is Ok ==> m1.contains_key(key) && m1[key] == val && !binding_mentions(
                m1[key],
                key,
            )
            &&& r is Err ==> m1 == m
        }),
{
}

proof fn lemma_resolve_chain_free(gen: Gen, key: Gen, m: Map<Gen, Binding>, fuel: nat)
    ensures
        resolve_chain(gen, key, m, fuel) matches Ok(FTy::Gen(k)) ==> !m.contains_key(k),
        !(resolve_chain(gen, key, m, fuel) matches Ok(FTy::T(_))),
    decreases fuel,
{
    if m.contains_key(key) {
        match m[key] {
            Binding::Alias(next) => if !(next == gen || fuel == 0) {
                lemma_resolve_chain_free(gen, next, m, (fuel - 1) as nat);
            },
            _ => {},
        }
    }
}

/// Resolving a variable ends in a bound, or in a variable without binding;
/// never in a concrete type.
pub proof fn law_resolve_ends_free(gen: Gen, m: Map<Gen, Binding>)
    ensures
        resolve_spec(gen, m) matches Ok(FTy::Gen(k)) ==> !m.contains_key(k),
        !(resolve_spec(gen, m) matches Ok(FTy::T(_))),
{
    lemma_resolve_chain_free(gen, gen, m, m.len());
}

/// Popping a variable takes out exactly the bound its aliases end in: a free
/// end leaves the bindings unchanged, a bound end is removed and returned.
pub proof fn law_pop_takes_the_end(gen: Gen, m: Map<Gen, Binding>)
    ensures
        ({
            let (r, m1) = resolve_and_pop_spec(gen, m);
            &&& r matches Ok(Popped::Free(k)) ==> !m.contains_key(k) && m1 == m
            &&& r matches Ok(Popped::Bounded(k, b)) ==> m.contains_key(k) && m[k] == Binding::Bounded(
                b,
            ) && m1 == m.remove(k)
            &&& r is Err ==> m1 == m
        }),
{
    lemma_root_chain_ends(gen, gen, m, m.len());
}

// ----------------------------------------------------------------------
// Compiled text
// ----------------------------------------------------------------------

proof fn lemma_join_push(lines: Seq<Seq<char>>, x: Seq<char>, sep: Seq<char>)
    ensures
        ({
            let j = join_spec(lines.push(x), sep);
            j.len() >= x.len() && j.subrange(j.len() - x.len(), j.len() as int) == x
        }),
{
    let l = lines.push(x);
    assert(l.drop_last() =~= lines);
    let j = join_spec(l, sep);
    if lines.len() == 0 {
        assert(j.subrange(0, x.len() as int) =~= x);
    } else {
        assert(j.subrange(j.len() - x.len(), j.len() as int) =~= x);
    }
}

/// Every compiled program ends by printing the stack.
pub proof fn law_compiled_ends_with_print(nodes: Seq<AstNode>)
    ensures
        compile_spec(nodes) matches Ok(s) ==> s.len() >= "print(stack)"@.len() && s.subrange(
            s.len() - "print(stack)"@.len(),
            s.len() as int,
        ) == "print(stack)"@,
{
    match crate::compile::compile_from(crate::compile::compile_start(), nodes, 0) {
        Ok(st) => lemma_join_push(st.code, "print(stack)"@, "\n"@),
        Err(_) => {},
    }
}

// ----------------------------------------------------------------------
// Applying functions to the stack
// ----------------------------------------------------------------------

proof fn lemma_take_all_height(s: TyList, ts: Seq<FTy>, m: Map<Gen, Binding>)
    ensures
        ({
            let (r, s1, _) = stack_take_all(s, ts, m);
            r is Ok ==> stack_seq(s1).len() + ts.len() == stack_seq(s).len()
        }),
    decreases ts.len(),
{
    if ts.len() > 0 {
        let (r, s1, m1) = stack_take_one(s, ts.last(), m);
        if r is Ok {
            lemma_take_all_height(s1, ts.drop_last(), m1);
        }
    }
}

proof fn lemma_push_outputs_height(s: TyList, outs: Seq<FTy>, i: int, m: Map<Gen, Binding>)
    requires
        0 <= i <= outs.len(),
    ensures
        ({
            let (r, s1) = stack_push_outputs(s, outs, i, m);
            r is Ok ==> stack_seq(s1).len() == stack_seq(s).len() + outs.len() - i
        }),
    decreases outs.len() - i,
{
    if i < outs.len() {
        match fty_rg(outs[i], m, MAX_DEPTH as nat) {
            Ok(x) => match fty_as_ty(x) {
                Ok(t) => lemma_push_outputs_height(
                    TyList::Cons(t, Box::new(s)),
                    outs,
                    i + 1,
                    m,
                ),
                Err(_) => {},
            },
            Err(_) => {},
        }
    }
}

/// Applying a function to the stack of a program takes as many values as the
/// function has inputs and leaves as many as it has outputs.
pub proof fn law_apply_height(s: Stack, f: Function)
    ensures
        ({
            let (r, s2) = s.apply_spec(f);
            r is Ok ==> stack_seq(s2.0).len() + list_seq(f.from).len() == stack_seq(s.0).len()
                + list_seq(f.to).len()
        }),
{
    let (r, s1, m1) = stack_take_all(s.0, list_seq(f.from), Map::empty());
    lemma_take_all_height(s.0, list_seq(f.from), Map::empty());
    if r is Ok {
        lemma_push_outputs_height(s1, list_seq(f.to), 0, m1);
    }
}

/// A closed definition becomes a function that takes nothing and pushes one
/// function value.
pub proof fn law_collect_pushes_one_function(fd: FuncDef)
    ensures
        fd_collect(fd) matches Ok(f) ==> (f.from == FList::Nil && (f.to matches FList::Cons(
            FTy::T(Ty::F(_)),
            rest,
        ) && *rest == FList::Nil)),
{
}

// ----------------------------------------------------------------------
// Nesting of definitions through type checking
// ----------------------------------------------------------------------

/// How many definitions are open inside a definition context.
pub open spec fn fd_depth(c: FDContext) -> nat
    decreases c,
{
    match c.child_context {
        Some(child) => match *child {
            ContextType::FD(fd) => 1 + fd_depth(fd),
        },
        None => 0,
    }
}

/// How many definitions are open in a program context.
pub open spec fn exec_depth(c: ExecContext) -> nat {
    match c.child_context {
        Some(child) => match *child {
            ContextType::FD(fd) => 1 + fd_depth(fd),
        },
        None => 0,
    }
}

/// What a node does to the nesting.
pub open spec fn delta(node: AstNode) -> int {
    match node {
        AstNode::OpenFunc => 1,
        AstNode::CloseFunc => -1,
        _ => 0,
    }
}

proof fn lemma_fd_check_depth(c: FDContext, node: AstNode, n: Gen)
    ensures
        ({
            let (r, _) = fd_check_spec(c, node, n);
            &&& r matches Ok(Checked::Continue(c1)) ==> fd_depth(c1) == fd_depth(c) + delta(node)
            &&& r matches Ok(Checked::Closed(_)) ==> node is CloseFunc && fd_depth(c) == 0
        }),
    decreases c,
{
    match c.child_context {
        Some(child) => match *child {
            ContextType::FD(fd) => {
                lemma_fd_check_depth(fd, node, n);
            },
        },
        None => {
            reveal_with_fuel(fd_depth, 2);
        },
    }
}

proof fn lemma_exec_check_depth(c: ExecContext, node: AstNode, n: Gen)
    ensures
        ({
            let (r, _) = exec_check_spec(c, node, n);
            r matches Ok(c1) ==> exec_depth(c1) == exec_depth(c) + delta(node) && (
            node is CloseFunc ==> exec_depth(c) > 0)
        }),
{
    match c.child_context {
        Some(child) => match *child {
            ContextType::FD(fd) => {
                lemma_fd_check_depth(fd, node, n);
            },
        },
        None => {},
    }
}

proof fn lemma_typecheck_nesting(c: ExecContext, nodes: Seq<AstNode>, i: int, n: Gen)
    requires
        0 <= i <= nodes.len(),
        exec_depth(c) == depth(nodes, i),
        typecheck_from(c, nodes, i, n) is Ok,
    ensures
        forall|j: int|
            i <= j < nodes.len() && #[trigger] nodes[j] is CloseFunc ==> depth(nodes, j) > 0,
    decreases nodes.len() - i,
{
    if i < nodes.len() {
        let (r, n1) = exec_check_spec(c, nodes[i], n);
        lemma_exec_check_depth(c, nodes[i], n);
        match r {
            Ok(c1) => {
                assert(depth(nodes, i + 1) == depth(nodes, i) + delta(nodes[i]));
                lemma_typecheck_nesting(c1, nodes, i + 1, n1);
            },
            Err(_) => {},
        }
    }
}

/// A program that type checking accepts never closes a definition it has not opened,
/// so the compiler can compile it.
pub proof fn law_checked_programs_nest(ast: Seq<AstNode>)
    ensures
        typecheck_spec(ast) is Ok ==> nesting_ok(ast),
{
    if typecheck_spec(ast) is Ok {
        lemma_typecheck_nesting(start_context(initial_store()), ast, 0, 0);
    }
}

// ----------------------------------------------------------------------
// Nesting of definitions through the reader
// ----------------------------------------------------------------------

/// The number of definitions open after the items `toks[..i]`.
pub open spec fn tok_depth(toks: Seq<Token>, i: int) -> int
    decreases i,
{
    if i <= 0 {
        0
    } else {
        tok_depth(toks, i - 1) + match toks[i - 1] {
            Token::Open => 1int,
            Token::Close => -1int,
            _ => 0int,
        }
    }
}

/// Every closing item closes an open definition, and none stays open.
pub open spec fn tokens_balanced(toks: Seq<Token>) -> bool {
    &&& forall|i: int| 0 <= i < toks.len() && #[trigger] toks[i] is Close ==> tok_depth(toks, i) > 0
    &&& tok_depth(toks, toks.len() as int) == 0
}

proof fn lemma_tok_depth_prefix(a: Seq<Token>, b: Seq<Token>, i: int)
    requires
        0 <= i <= a.len(),
        a.len() <= b.len(),
        forall|k: int| 0 <= k < a.len() ==> a[k] == b[k],
    ensures
        tok_depth(a, i) == tok_depth(b, i),
    decreases i,
{
    if i > 0 {
        lemma_tok_depth_prefix(a, b, i - 1);
    }
}

proof fn lemma_scan_balanced(s: Seq<char>, i: int, d: nat, acc: Seq<Token>, big: bool)
    requires
        tok_depth(acc, acc.len() as int) == d,
        forall|k: int| 0 <= k < acc.len() && #[trigger] acc[k] is Close ==> tok_depth(acc, k) > 0,
    ensures
        scan(s, i, d, acc, big) matches Ok(toks) ==> tokens_balanced(toks) && acc.len() <= toks.len()
            && forall|k: int| 0 <= k < acc.len() ==> acc[k] == #[trigger] toks[k],
    decreases s.len() - i,
{
    if !(i < 0 || i >= s.len()) {
        let c = s[i];
        crate::ast::lemma_runs_advance(s, i);
        crate::ast::lemma_runs_advance(s, i + 1);
        if crate::ast::is_space(c) {
            lemma_scan_balanced(s, i + 1, d, acc, big);
        } else if c == '[' {
            lemma_push_depth(acc, Token::Open);
            lemma_scan_balanced(s, i + 1, d + 1, acc.push(Token::Open), big);
            lemma_prefix_chain(acc, Token::Open, scan(s, i + 1, d + 1, acc.push(Token::Open), big));
        } else if c == ']' {
            if d > 0 {
                lemma_push_depth(acc, Token::Close);
                lemma_scan_balanced(s, i + 1, (d - 1) as nat, acc.push(Token::Close), big);
                lemma_prefix_chain(
                    acc,
                    Token::Close,
                    scan(s, i + 1, (d - 1) as nat, acc.push(Token::Close), big),
                );
            }
        } else if c == '!' {
            lemma_push_depth(acc, Token::Apply);
            lemma_scan_balanced(s, i + 1, d, acc.push(Token::Apply), big);
            lemma_prefix_chain(acc, Token::Apply, scan(s, i + 1, d, acc.push(Token::Apply), big));
        } else if c == '$' {
            let j = crate::ast::name_end(s, i + 1);
            if j != i + 1 {
                let t = Token::Bind(s.subrange(i + 1, j));
                lemma_push_depth(acc, t);
                lemma_scan_balanced(s, j, d, acc.push(t), big);
                lemma_prefix_chain(acc, t, scan(s, j, d, acc.push(t), big));
            }
        } else if c == '\'' {
            let j = crate::ast::name_end(s, i + 1);
            let t = Token::Quote(
                if j == i + 1 {
                    "'"@
                } else {
                    s.subrange(i + 1, j)
                },
            );
            lemma_push_depth(acc, t);
            lemma_scan_balanced(s, j, d, acc.push(t), big);
            lemma_prefix_chain(acc, t, scan(s, j, d, acc.push(t), big));
        } else if c == '(' {
            match crate::ast::arity_spec(s, i) {
                Ok((a, next)) => if next > i {
                    match a {
                        Some((x, y)) => {
                            let t = Token::Arity(x, y);
                            lemma_push_depth(acc, t);
                            lemma_scan_balanced(s, next, d, acc.push(t), big);
                            lemma_prefix_chain(acc, t, scan(s, next, d, acc.push(t), big));
                        },
                        None => {
                            lemma_scan_balanced(s, next, d, acc, true);
                        },
                    }
                },
                Err(_) => {},
            }
        } else if crate::ast::is_digit(c) {
            let j = crate::ast::digits_end(s, i);
            let t = Token::Int(s.subrange(i, j));
            lemma_push_depth(acc, t);
            lemma_scan_balanced(s, j, d, acc.push(t), big);
            lemma_prefix_chain(acc, t, scan(s, j, d, acc.push(t), big));
        } else if crate::ast::is_name_char(c) {
            let j = crate::ast::name_end(s, i);
            let t = Token::Id(s.subrange(i, j));
            lemma_push_depth(acc, t);
            lemma_scan_balanced(s, j, d, acc.push(t), big);
            lemma_prefix_chain(acc, t, scan(s, j, d, acc.push(t), big));
        }
    } else {
        if scan(s, i, d, acc, big) is Ok {
            assert(tokens_balanced(acc));
        }
    }
}

proof fn lemma_push_depth(acc: Seq<Token>, t: Token)
    ensures
        tok_depth(acc.push(t), (acc.len() + 1) as int) == tok_depth(acc, acc.len() as int) + match t {
            Token::Open => 1int,
            Token::Close => -1int,
            _ => 0int,
        },
        forall|k: int| 0 <= k <= acc.len() ==> tok_depth(acc.push(t), k) == tok_depth(acc, k),
{
    assert forall|k: int| 0 <= k <= acc.len() implies tok_depth(acc.push(t), k) == tok_depth(
        acc,
        k,
    ) by {
        lemma_tok_depth_prefix(acc, acc.push(t), k);
    }
    lemma_tok_depth_prefix(acc, acc.push(t), acc.len() as int);
}

proof fn lemma_prefix_chain(acc: Seq<Token>, t: Token, r: Result<Seq<Token>, crate::ast::ParseError>)
    requires
        r matches Ok(toks) ==> acc.push(t).len() <= toks.len() && forall|k: int|
            0 <= k < acc.push(t).len() ==> acc.push(t)[k] == #[trigger] toks[k],
    ensures
        r matches Ok(toks) ==> acc.len() <= toks.len() && forall|k: int|
            0 <= k < acc.len() ==> acc[k] == #[trigger] toks[k],
{
    if let Ok(toks) = r {
        assert forall|k: int| 0 <= k < acc.len() implies acc[k] == #[trigger] toks[k] by {
            assert(acc.push(t)[k] == toks[k]);
        }
    }
}

proof fn lemma_depth_tokens(nodes: Seq<AstNode>, i: int)
    requires
        0 <= i <= nodes.len(),
    ensures
        depth(nodes, i) == tok_depth(nodes_tokens(nodes), i),
    decreases i,
{
    if i > 0 {
        lemma_depth_tokens(nodes, i - 1);
    }
}

/// The reader produces properly nested programs: every closing node closes a
/// definition it opened, and no definition stays open.
pub proof fn law_parsed_programs_nest(source: Seq<char>, nodes: Seq<AstNode>)
    requires
        parse_spec(source) == Ok::<Seq<Token>, crate::ast::ParseError>(nodes_tokens(nodes)),
    ensures
        nesting_ok(nodes),
        depth(nodes, nodes.len() as int) == 0,
{
    lemma_scan_balanced(source, 0, 0, Seq::empty(), false);
    let toks = nodes_tokens(nodes);
    assert forall|i: int| 0 <= i < nodes.len() && #[trigger] nodes[i] is CloseFunc implies depth(
        nodes,
        i,
    ) > 0 by {
        lemma_depth_tokens(nodes, i);
        assert(toks[i] is Close);
    }
    lemma_depth_tokens(nodes, nodes.len() as int);
}

// ----------------------------------------------------------------------
// No variable is ever bound to something that mentions it
// ----------------------------------------------------------------------

/// No entry of the bindings mentions its own variable.
pub open spec fn no_self_binding(m: Map<Gen, Binding>) -> bool {
    forall|k: Gen| #[trigger] m.contains_key(k) ==> !binding_mentions(m[k], k)
}

proof fn lemma_insert_keeps(m: Map<Gen, Binding>, key: Gen, val: Binding)
    requires
        no_self_binding(m),
    ensures
        no_self_binding(insert_spec(m, key, val).1),
{
}

proof fn lemma_pop_keeps(gen: Gen, m: Map<Gen, Binding>)
    requires
        no_self_binding(m),
    ensures
        no_self_binding(resolve_and_pop_spec(gen, m).1),
{
}

proof fn lemma_fty_merge_keeps(s: FTy, o: FTy, m: Map<Gen, Binding>, d: nat)
    requires
        no_self_binding(m),
    ensures
        no_self_binding(fty_merge(s, o, m, d).1),
    decreases d, 0nat,
{
    if d > 0 {
        let d1 = (d - 1) as nat;
        match side(s) {
            Side::Var(gen) => {
                let (p, m1) = resolve_and_pop_spec(gen, m);
                lemma_pop_keeps(gen, m);
                match p {
                    Err(_) => {},
                    Ok(Popped::Free(key)) => match side(o) {
                        Side::Bnd(ob) => {
                            lemma_insert_keeps(m1, key, Binding::Bounded(ob));
                        },
                        Side::Var(og) => {
                            let (p2, m2) = resolve_and_pop_spec(og, m1);
                            lemma_pop_keeps(og, m1);
                            match p2 {
                                Err(_) => {},
                                Ok(Popped::Free(okey)) => {
                                    lemma_insert_keeps(m2, key, Binding::Alias(okey));
                                },
                                Ok(Popped::Bounded(okey, ob)) => {
                                    let (r, m3) = insert_spec(m2, okey, Binding::Bounded(ob));
                                    lemma_insert_keeps(m2, okey, Binding::Bounded(ob));
                                    lemma_insert_keeps(m3, key, Binding::Alias(okey));
                                },
                            }
                        },
                    },
                    Ok(Popped::Bounded(key, bound)) => {
                        let (r, nb, m2) = match side(o) {
                            Side::Bnd(ob) => bound_merge(bound, ob, m1, d1),
                            Side::Var(og) => {
                                let (p2, mm) = resolve_and_pop_spec(og, m1);
                                match p2 {
                                    Err(e) => (Err(e), bound, mm),
                                    Ok(Popped::Free(okey)) => {
                                        let (ri, mi) = insert_spec(mm, okey, Binding::Alias(key));
                                        (then_val(ri, ()), bound, mi)
                                    },
                                    Ok(Popped::Bounded(okey, ob)) => {
                                        let (ri, mi) = insert_spec(mm, okey, Binding::Alias(key));
                                        match ri {
                                            Err(e) => (Err(e), bound, mi),
                                            Ok(_) => bound_merge(bound, ob, mi, d1),
                                        }
                                    },
                                }
                            },
                        };
                        match side(o) {
                            Side::Bnd(ob) => {
                                lemma_bound_merge_keeps(bound, ob, m1, d1);
                            },
                            Side::Var(og) => {
                                let (p2, mm) = resolve_and_pop_spec(og, m1);
                                lemma_pop_keeps(og, m1);
                                match p2 {
                                    Err(_) => {},
                                    Ok(Popped::Free(okey)) => {
                                        lemma_insert_keeps(mm, okey, Binding::Alias(key));
                                    },
                                    Ok(Popped::Bounded(okey, ob)) => {
                                        let (ri, mi) = insert_spec(mm, okey, Binding::Alias(key));
                                        lemma_insert_keeps(mm, okey, Binding::Alias(key));
                                        if ri is Ok {
                                            lemma_bound_merge_keeps(bound, ob, mi, d1);
                                        }
                                    },
                                }
                            },
                        }
                        lemma_insert_keeps(m2, key, Binding::Bounded(nb));
                    },
                }
            },
            Side::Bnd(bound) => match side(o) {
                Side::Bnd(sb) => {
                    lemma_bound_merge_keeps(bound, sb, m, d1);
                },
                Side::Var(g) => {
                    lemma_fty_merge_keeps(FTy::Gen(g), FTy::B(bound), m, d1);
                },
            },
        }
    }
}

proof fn lemma_bound_merge_keeps(s: Bound, o: Bound, m: Map<Gen, Binding>, d: nat)
    requires
        no_self_binding(m),
    ensures
        no_self_binding(bound_merge(s, o, m, d).2),
    decreases d, 0nat,
{
    if d > 0 {
        let d1 = (d - 1) as nat;
        let (r1, s1, m1) = match o.upper {
            Some(t) => bound_upper(s, t, m, d1),
            None => (Ok(()), s, m),
        };
        if let Some(t) = o.upper {
            lemma_bound_upper_keeps(s, t, m, d1);
        }
        if r1 is Ok {
            let (r2, s2, m2) = match o.lower {
                Some(t) => bound_lower(s1, t, m1, d1),
                None => (Ok(()), s1, m1),
            };
            if let Some(t) = o.lower {
                lemma_bound_lower_keeps(s1, t, m1, d1);
            }
            if r2 is Ok {
                lemma_bound_sound_keeps(s2, m2, d1);
            }
        }
    }
}

proof fn lemma_bound_upper_keeps(s: Bound, t: Ty, m: Map<Gen, Binding>, d: nat)
    requires
        no_self_binding(m),
    ensures
        no_self_binding(bound_upper(s, t, m, d).2),
    decreases d, 0nat,
{
    if d > 0 {
        let d1 = (d - 1) as nat;
        match s.upper {
            Some(ub) => {
                let (r, m1) = ty_glb(ub, t, m, d1);
                lemma_ty_meet_keeps(ub, t, m, d1, false);
                if let Ok(g) = r {
                    lemma_bound_sound_keeps(Bound { upper: None, lower: Some(g) }, m1, d1);
                }
            },
            None => {
                lemma_bound_sound_keeps(Bound { upper: Some(t), lower: s.lower }, m, d1);
            },
        }
    }
}

proof fn lemma_bound_lower_keeps(s: Bound, t: Ty, m: Map<Gen, Binding>, d: nat)
    requires
        no_self_binding(m),
    ensures
        no_self_binding(bound_lower(s, t, m, d).2),
    decreases d, 0nat,
{
    if d > 0 {
        let d1 = (d - 1) as nat;
        match s.lower {
            Some(lb) => {
                let (r, m1) = ty_lub(lb, t, m, d1);
                lemma_ty_meet_keeps(lb, t, m, d1, true);
                if let Ok(l) = r {
                    lemma_bound_sound_keeps(Bound { upper: s.upper, lower: Some(l) }, m1, d1);
                }
            },
            None => {
                lemma_bound_sound_keeps(Bound { upper: s.upper, lower: Some(t) }, m, d1);
            },
        }
    }
}

proof fn lemma_bound_sound_keeps(s: Bound, m: Map<Gen, Binding>, d: nat)
    requires
        no_self_binding(m),
    ensures
        no_self_binding(bound_sound(s, m, d).1),
    decreases d, 0nat,
{
    if d > 0 {
        let d1 = (d - 1) as nat;
        if let Some(ub) = s.upper {
            if let Some(lb) = s.lower {
                lemma_ty_meet_keeps(ub, lb, m, d1, true);
            }
        }
    }
}

/// Covers `ty_glb` (when `lub` is false) and `ty_lub` (when it is true).
proof fn lemma_ty_meet_keeps(s: Ty, w: Ty, m: Map<Gen, Binding>, d: nat, lub: bool)
    requires
        no_self_binding(m),
    ensures
        lub ==> no_self_binding(ty_lub(s, w, m, d).1),
        !lub ==> no_self_binding(ty_glb(s, w, m, d).1),
    decreases d, 0nat,
{
    if d > 0 {
        if let Ty::F(f) = s {
            if let Ty::F(of) = w {
                lemma_fn_meet_keeps(*f, *of, m, (d - 1) as nat, lub);
            }
        }
    }
}

proof fn lemma_fn_meet_keeps(f: Function, o: Function, m: Map<Gen, Binding>, d: nat, extend: bool)
    requires
        no_self_binding(m),
    ensures
        no_self_binding(fn_meet(f, o, m, d, extend).1),
    decreases d, 0nat,
{
    if d > 0 && arity_compatible(f, o) {
        let d1 = (d - 1) as nat;
        let (r1, m1) = zip_merge(f.from, o.from, m, d1);
        lemma_zip_merge_keeps(f.from, o.from, m, d1);
        if let Ok((from, rem_from)) = r1 {
            let (r2, m2) = zip_merge(f.to, o.to, m1, d1);
            lemma_zip_merge_keeps(f.to, o.to, m1, d1);
            if let Ok((to, rem_to)) = r2 {
                lemma_pair_merge_keeps(rem_from, rem_to, m2, d1);
            }
        }
    }
}

proof fn lemma_zip_merge_keeps(a: FList, b: FList, m: Map<Gen, Binding>, d: nat)
    requires
        no_self_binding(m),
    ensures
        no_self_binding(zip_merge(a, b, m, d).1),
    decreases d, 0nat,
{
    if d > 0 {
        let d1 = (d - 1) as nat;
        if let FList::Cons(x, ar) = a {
            if let FList::Cons(y, br) = b {
                let (r, m1) = fty_merge(x, y, m, d1);
                lemma_fty_merge_keeps(x, y, m, d1);
                if r is Ok {
                    lemma_zip_merge_keeps(*ar, *br, m1, d1);
                }
            }
        }
    }
}

proof fn lemma_pair_merge_keeps(a: FList, b: FList, m: Map<Gen, Binding>, d: nat)
    requires
        no_self_binding(m),
    ensures
        no_self_binding(pair_merge(a, b, m, d).1),
    decreases d, 0nat,
{
    if d > 0 {
        let d1 = (d - 1) as nat;
        if let FList::Cons(x, ar) = a {
            if let FList::Cons(y, br) = b {
                let (r, m1) = fty_merge(x, y, m, d1);
                lemma_fty_merge_keeps(x, y, m, d1);
                if r is Ok {
                    lemma_pair_merge_keeps(*ar, *br, m1, d1);
                }
            }
        }
    }
}

/// Merging two slots never binds a variable to itself nor to a bound that
/// mentions it, whatever the slots, provided the bindings had no such entry.
pub proof fn law_merge_keeps_no_self_binding(s: FTy, o: FTy, m: Map<Gen, Binding>)
    requires
        no_self_binding(m),
    ensures
        no_self_binding(fty_merge(s, o, m, MAX_DEPTH as nat).1),
{
    lemma_fty_merge_keeps(s, o, m, MAX_DEPTH as nat);
}

// ----------------------------------------------------------------------
// A walk along aliases is refused only where it never ends
// ----------------------------------------------------------------------

/// The variable that the alias of `k` names, if `k` is bound to an alias.
pub open spec fn alias_next(m: Map<Gen, Binding>, k: Gen) -> Option<Gen> {
    if m.contains_key(k) && m[k] is Alias {
        Some(m[k]->Alias_0)
    } else {
        None
    }
}

/// The variable reached from `start` after `n` aliases, if the aliases go on
/// that far.
pub open spec fn walk(m: Map<Gen, Binding>, start: Gen, n: nat) -> Option<Gen>
    decreases n,
{
    if n == 0 {
        Some(start)
    } else {
        match walk(m, start, (n - 1) as nat) {
            Some(k) => alias_next(m, k),
            None => None,
        }
    }
}

proof fn lemma_walk_shift(m: Map<Gen, Binding>, key: Gen, next: Gen, t: nat)
    requires
        alias_next(m, key) == Some(next),
    ensures
        walk(m, key, t + 1) == walk(m, next, t),
    decreases t,
{
    reveal_with_fuel(walk, 2);
    if t > 0 {
        lemma_walk_shift(m, key, next, (t - 1) as nat);
    }
}

proof fn lemma_walk_prefix(m: Map<Gen, Binding>, s: Gen, i: nat, j: nat)
    requires
        i <= j,
        walk(m, s, j) is Some,
    ensures
        walk(m, s, i) is Some,
    decreases j - i,
{
    if i < j {
        lemma_walk_prefix(m, s, i, (j - 1) as nat);
    }
}

proof fn lemma_walk_same_after(m: Map<Gen, Binding>, s: Gen, i: nat, j: nat, t: nat)
    requires
        walk(m, s, i) is Some,
        walk(m, s, i) == walk(m, s, j),
    ensures
        walk(m, s, i + t) == walk(m, s, j + t),
    decreases t,
{
    if t > 0 {
        lemma_walk_same_after(m, s, i, j, (t - 1) as nat);
        assert(walk(m, s, (i + t) as nat) == match walk(m, s, (i + t - 1) as nat) {
            Some(k) => alias_next(m, k),
            None => None,
        });
    }
}

proof fn lemma_walk_periodic(m: Map<Gen, Binding>, s: Gen, i: nat, j: nat, n: nat)
    requires
        i < j,
        walk(m, s, j) is Some,
        walk(m, s, i) == walk(m, s, j),
    ensures
        walk(m, s, n) is Some,
    decreases n,
{
    if n <= j {
        lemma_walk_prefix(m, s, n, j);
    } else {
        let p = (j - i) as nat;
        lemma_walk_prefix(m, s, i, j);
        lemma_walk_same_after(m, s, i, j, (n - j) as nat);
        assert(j + (n - j) == n);
        lemma_walk_periodic(m, s, i, j, (n - p) as nat);
        assert(i + (n - j) == n - p);
    }
}

/// The set of the first `k` variables of a walk.
spec fn walk_set(m: Map<Gen, Binding>, s: Gen, k: nat) -> Set<Gen>
    decreases k,
{
    if k == 0 {
        Set::empty()
    } else {
        walk_set(m, s, (k - 1) as nat).insert(walk(m, s, (k - 1) as nat)->Some_0)
    }
}

proof fn lemma_walk_set(m: Map<Gen, Binding>, s: Gen, k: nat)
    requires
        forall|a: nat| a < k ==> #[trigger] alias_next(m, walk(m, s, a)->Some_0) is Some,
        forall|a: nat| a < k ==> #[trigger] walk(m, s, a) is Some,
        forall|a: nat, b: nat| a < b < k ==> walk(m, s, a) != walk(m, s, b),
    ensures
        walk_set(m, s, k).finite(),
        walk_set(m, s, k).len() == k,
        walk_set(m, s, k).subset_of(m.dom()),
        forall|a: nat| a < k ==> walk_set(m, s, k).contains(#[trigger] walk(m, s, a)->Some_0),
        forall|y: Gen|
            #[trigger] walk_set(m, s, k).contains(y) ==> exists|a: nat|
                a < k && walk(m, s, a)->Some_0 == y,
    decreases k,
{
    if k > 0 {
        let k1 = (k - 1) as nat;
        lemma_walk_set(m, s, k1);
        let x = walk(m, s, k1)->Some_0;
        assert(alias_next(m, x) is Some);
        if walk_set(m, s, k1).contains(x) {
            let a = choose|a: nat| a < k1 && walk(m, s, a)->Some_0 == x;
            assert(walk(m, s, a) == walk(m, s, k1));
            assert(false);
        }
        assert forall|y: Gen| #[trigger] walk_set(m, s, k).contains(y) implies exists|a: nat|
            a < k && walk(m, s, a)->Some_0 == y by {
            if y != x {
                let a = choose|a: nat| a < k1 && walk(m, s, a)->Some_0 == y;
                assert(a < k);
            } else {
                assert(k1 < k && walk(m, s, k1)->Some_0 == y);
            }
        }
    }
}

/// From a walk longer than the map holds entries, a repetition.
proof fn lemma_walk_repeats(m: Map<Gen, Binding>, s: Gen)
    requires
        m.dom().finite(),
        walk(m, s, m.len() + 1) is Some,
    ensures
        exists|i: nat, j: nat| i < j <= m.len() + 1 && walk(m, s, i) == walk(m, s, j),
{
    let n = (m.len() + 1) as nat;
    assert forall|a: nat| a < n implies #[trigger] walk(m, s, a) is Some by {
        lemma_walk_prefix(m, s, a, n);
    }
    assert forall|a: nat| a < n implies #[trigger] alias_next(m, walk(m, s, a)->Some_0) is Some by {
        lemma_walk_prefix(m, s, a + 1, n);
    }
    if forall|a: nat, b: nat| a < b < n ==> walk(m, s, a) != walk(m, s, b) {
        lemma_walk_set(m, s, n);
        vstd::set_lib::lemma_len_subset(walk_set(m, s, n), m.dom());
        assert(false);
    } else {
        let (a, b) = choose|a: nat, b: nat| a < b < n && walk(m, s, a) == walk(m, s, b);
        assert(a < b <= m.len() + 1 && walk(m, s, a) == walk(m, s, b));
    }
}

proof fn lemma_resolve_chain_refusal(gen: Gen, key: Gen, m: Map<Gen, Binding>, fuel: nat)
    requires
        resolve_chain(gen, key, m, fuel) is Err,
    ensures
        exists|t: nat|
            t <= fuel && #[trigger] walk(m, key, t + 1) is Some && (walk(m, key, t + 1) == Some(
                gen,
            ) || t == fuel),
    decreases fuel,
{
    reveal_with_fuel(walk, 2);
    let next = m[key]->Alias_0;
    assert(alias_next(m, key) == Some(next));
    assert(walk(m, key, 1) == Some(next));
    if next == gen || fuel == 0 {
        assert(walk(m, key, 0 + 1) is Some);
    } else {
        lemma_resolve_chain_refusal(gen, next, m, (fuel - 1) as nat);
        let t = choose|t: nat|
            t <= fuel - 1 && #[trigger] walk(m, next, t + 1) is Some && (walk(m, next, t + 1)
                == Some(gen) || t == fuel - 1);
        lemma_walk_shift(m, key, next, t + 1);
        assert(walk(m, key, (t + 1) + 1) is Some);
    }
}

proof fn lemma_root_chain_refusal(gen: Gen, key: Gen, m: Map<Gen, Binding>, fuel: nat)
    requires
        root_chain(gen, key, m, fuel) is Err,
    ensures
        exists|t: nat|
            t <= fuel && #[trigger] walk(m, key, t + 1) is Some && (walk(m, key, t + 1) == Some(
                gen,
            ) || t == fuel),
    decreases fuel,
{
    reveal_with_fuel(walk, 2);
    let next = m[key]->Alias_0;
    assert(alias_next(m, key) == Some(next));
    assert(walk(m, key, 1) == Some(next));
    if next == gen || fuel == 0 {
        assert(walk(m, key, 0 + 1) is Some);
    } else {
        lemma_root_chain_refusal(gen, next, m, (fuel - 1) as nat);
        let t = choose|t: nat|
            t <= fuel - 1 && #[trigger] walk(m, next, t + 1) is Some && (walk(m, next, t + 1)
                == Some(gen) || t == fuel - 1);
        lemma_walk_shift(m, key, next, t + 1);
        assert(walk(m, key, (t + 1) + 1) is Some);
    }
}

proof fn lemma_refusal_means_endless(gen: Gen, m: Map<Gen, Binding>, t: nat, n: nat)
    requires
        m.dom().finite(),
        t <= m.len(),
        walk(m, gen, t + 1) is Some,
        walk(m, gen, t + 1) == Some(gen) || t == m.len(),
    ensures
        walk(m, gen, n) is Some,
{
    if walk(m, gen, t + 1) == Some(gen) {
        lemma_walk_periodic(m, gen, 0, t + 1, n);
    } else {
        lemma_walk_repeats(m, gen);
        let (i, j) = choose|i: nat, j: nat| i < j <= m.len() + 1 && walk(m, gen, i) == walk(m, gen, j);
        lemma_walk_prefix(m, gen, j, (m.len() + 1) as nat);
        lemma_walk_periodic(m, gen, i, j, n);
    }
}

/// Resolving a variable is refused only where the aliases starting at it never
/// end: following them goes on for ever, coming back round a circle.
pub proof fn law_resolve_refuses_only_endless_chains(gen: Gen, m: Map<Gen, Binding>, n: nat)
    requires
        m.dom().finite(),
        resolve_spec(gen, m) is Err,
    ensures
        walk(m, gen, n) is Some,
{
    lemma_resolve_chain_refusal(gen, gen, m, m.len());
    let t = choose|t: nat|
        t <= m.len() && #[trigger] walk(m, gen, t + 1) is Some && (walk(m, gen, t + 1) == Some(
            gen,
        ) || t == m.len());
    lemma_refusal_means_endless(gen, m, t, n);
}

/// Popping a variable is refused only where the aliases starting at it never end.
pub proof fn law_pop_refuses_only_endless_chains(gen: Gen, m: Map<Gen, Binding>, n: nat)
    requires
        m.dom().finite(),
        resolve_and_pop_spec(gen, m).0 is Err,
    ensures
        walk(m, gen, n) is Some,
{
    lemma_root_chain_refusal(gen, gen, m, m.len());
    let t = choose|t: nat|
        t <= m.len() && #[trigger] walk(m, gen, t + 1) is Some && (walk(m, gen, t + 1) == Some(
            gen,
        ) || t == m.len());
    lemma_refusal_means_endless(gen, m, t, n);
}

// ----------------------------------------------------------------------
// Substitution settles a type
// ----------------------------------------------------------------------

/// No variable of the type has an entry in the bindings.
pub open spec fn ty_free(t: Ty, m: Map<Gen, Binding>) -> bool {
    forall|g: Gen| #[trigger] ty_contains(t, g) ==> !m.contains_key(g)
}

pub open spec fn fn_free(f: Function, m: Map<Gen, Binding>) -> bool {
    forall|g: Gen| #[trigger] fn_contains(f, g) ==> !m.contains_key(g)
}

pub open spec fn list_free(l: FList, m: Map<Gen, Binding>) -> bool {
    forall|g: Gen| #[trigger] list_contains(l, g) ==> !m.contains_key(g)
}

pub open spec fn fty_free(x: FTy, m: Map<Gen, Binding>) -> bool {
    forall|g: Gen| #[trigger] fty_contains(x, g) ==> !m.contains_key(g)
}

pub open spec fn bound_free(b: Bound, m: Map<Gen, Binding>) -> bool {
    forall|g: Gen| #[trigger] bound_contains(b, g) ==> !m.contains_key(g)
}

proof fn lemma_ty_rg_settles(t: Ty, m: Map<Gen, Binding>, d: nat)
    ensures
        ty_rg(t, m, d) matches Ok(y) ==> ty_rg(y, m, d) == Ok::<Ty, TypeError>(y) && ty_free(y, m),
        ty_free(t, m) && ty_rg(t, m, d) is Ok ==> ty_rg(t, m, d) == Ok::<Ty, TypeError>(t),
    decreases d, 4nat,
{
    if d > 0 {
        if let Ty::F(f) = t {
            lemma_fn_rg_settles(*f, m, (d - 1) as nat);
            if ty_free(t, m) {
                assert forall|g: Gen| #[trigger] fn_contains(*f, g) implies !m.contains_key(g) by {
                    assert(ty_contains(t, g));
                }
            }
            if let Ok(nf) = fn_rg(*f, m, (d - 1) as nat) {
                let y = Ty::F(Box::new(nf));
                assert forall|g: Gen| #[trigger] ty_contains(y, g) implies !m.contains_key(g) by {
                    assert(fn_contains(nf, g));
                }
            }
        }
    }
}

proof fn lemma_fn_rg_settles(f: Function, m: Map<Gen, Binding>, d: nat)
    ensures
        fn_rg(f, m, d) matches Ok(y) ==> fn_rg(y, m, d) == Ok::<Function, TypeError>(y) && fn_free(
            y,
            m,
        ),
        fn_free(f, m) && fn_rg(f, m, d) is Ok ==> fn_rg(f, m, d) == Ok::<Function, TypeError>(f),
    decreases d, 3nat,
{
    if d > 0 {
        lemma_list_rg_settles(f.from, m, (d - 1) as nat);
        lemma_list_rg_settles(f.to, m, (d - 1) as nat);
        if fn_free(f, m) {
            assert forall|g: Gen| #[trigger] list_contains(f.from, g) implies !m.contains_key(g) by {
                assert(fn_contains(f, g));
            }
            assert forall|g: Gen| #[trigger] list_contains(f.to, g) implies !m.contains_key(g) by {
                assert(fn_contains(f, g));
            }
        }
        if let Ok(y) = fn_rg(f, m, d) {
            assert forall|g: Gen| #[trigger] fn_contains(y, g) implies !m.contains_key(g) by {
                if list_contains(y.from, g) {
                } else {
                    assert(list_contains(y.to, g));
                }
            }
        }
    }
}

proof fn lemma_list_rg_settles(l: FList, m: Map<Gen, Binding>, d: nat)
    ensures
        list_rg(l, m, d) matches Ok(y) ==> list_rg(y, m, d) == Ok::<FList, TypeError>(y) && list_free(
            y,
            m,
        ),
        list_free(l, m) && list_rg(l, m, d) is Ok ==> list_rg(l, m, d) == Ok::<FList, TypeError>(l),
    decreases d, 2nat,
{
    if d > 0 {
        if let FList::Cons(x, rest) = l {
            lemma_fty_rg_settles(x, m, (d - 1) as nat);
            lemma_list_rg_settles(*rest, m, (d - 1) as nat);
            if list_free(l, m) {
                assert forall|g: Gen| #[trigger] fty_contains(x, g) implies !m.contains_key(g) by {
                    assert(list_contains(l, g));
                }
                assert forall|g: Gen| #[trigger] list_contains(*rest, g) implies !m.contains_key(
                    g,
                ) by {
                    assert(list_contains(l, g));
                }
            }
            if let Ok(y) = list_rg(l, m, d) {
                assert forall|g: Gen| #[trigger] list_contains(y, g) implies !m.contains_key(g) by {
                    if let FList::Cons(nx, nrest) = y {
                        if fty_contains(nx, g) {
                        } else {
                            assert(list_contains(*nrest, g));
                        }
                    }
                }
            }
        }
    }
}

proof fn lemma_fty_rg_settles(x: FTy, m: Map<Gen, Binding>, d: nat)
    ensures
        fty_rg(x, m, d) matches Ok(y) ==> fty_rg(y, m, d) == Ok::<FTy, TypeError>(y) && fty_free(
            y,
            m,
        ),
        fty_free(x, m) && fty_rg(x, m, d) is Ok ==> fty_rg(x, m, d) == Ok::<FTy, TypeError>(x),
    decreases d, 1nat,
{
    if d > 0 {
        let d1 = (d - 1) as nat;
        match x {
            FTy::Gen(g) => {
                law_resolve_ends_free(g, m);
                if fty_free(x, m) {
                    assert(fty_contains(x, g));
                    assert(resolve_spec(g, m) == Ok::<FTy, TypeError>(FTy::Gen(g)));
                }
                match resolve_spec(g, m) {
                    Ok(FTy::B(b)) => {
                        lemma_bound_rg_settles(b, m, d1);
                        if let Ok(nb) = bound_rg(b, m, d1) {
                            assert forall|h: Gen| #[trigger]
                                fty_contains(FTy::B(nb), h) implies !m.contains_key(h) by {
                                assert(bound_contains(nb, h));
                            }
                        }
                    },
                    Ok(FTy::T(t)) => {},
                    Ok(FTy::Gen(k)) => {
                        assert(resolve_spec(k, m) == Ok::<FTy, TypeError>(FTy::Gen(k)));
                        assert forall|h: Gen| #[trigger]
                            fty_contains(FTy::Gen(k), h) implies !m.contains_key(h) by {}
                    },
                    Err(_) => {},
                }
            },
            FTy::B(b) => {
                lemma_bound_rg_settles(b, m, d1);
                if fty_free(x, m) {
                    assert forall|h: Gen| #[trigger] bound_contains(b, h) implies !m.contains_key(
                        h,
                    ) by {
                        assert(fty_contains(x, h));
                    }
                }
                if let Ok(nb) = bound_rg(b, m, d1) {
                    assert forall|h: Gen| #[trigger]
                        fty_contains(FTy::B(nb), h) implies !m.contains_key(h) by {
                        assert(bound_contains(nb, h));
                    }
                }
            },
            FTy::T(t) => {
                lemma_ty_rg_settles(t, m, d1);
                if fty_free(x, m) {
                    assert forall|h: Gen| #[trigger] ty_contains(t, h) implies !m.contains_key(h) by {
                        assert(fty_contains(x, h));
                    }
                }
                if let Ok(nt) = ty_rg(t, m, d1) {
                    assert forall|h: Gen| #[trigger]
                        fty_contains(FTy::T(nt), h) implies !m.contains_key(h) by {
                        assert(ty_contains(nt, h));
                    }
                }
            },
        }
    }
}

proof fn lemma_bound_rg_settles(b: Bound, m: Map<Gen, Binding>, d: nat)
    ensures
        bound_rg(b, m, d) matches Ok(y) ==> bound_rg(y, m, d) == Ok::<Bound, TypeError>(y)
            && bound_free(y, m),
        bound_free(b, m) && bound_rg(b, m, d) is Ok ==> bound_rg(b, m, d) == Ok::<Bound, TypeError>(b),
    decreases d, 0nat,
{
    if d > 0 {
        let d1 = (d - 1) as nat;
        if let Some(u) = b.upper {
            lemma_ty_rg_settles(u, m, d1);
            if bound_free(b, m) {
                assert forall|h: Gen| #[trigger] ty_contains(u, h) implies !m.contains_key(h) by {
                    assert(bound_contains(b, h));
                }
            }
        }
        if let Some(l) = b.lower {
            lemma_ty_rg_settles(l, m, d1);
            if bound_free(b, m) {
                assert forall|h: Gen| #[trigger] ty_contains(l, h) implies !m.contains_key(h) by {
                    assert(bound_contains(b, h));
                }
            }
        }
        if let Ok(y) = bound_rg(b, m, d) {
            if let Some(nu) = y.upper {
                lemma_ty_rg_settles(b.upper->Some_0, m, d1);
            }
            if let Some(nl) = y.lower {
                lemma_ty_rg_settles(b.lower->Some_0, m, d1);
            }
            assert forall|h: Gen| #[trigger] bound_contains(y, h) implies !m.contains_key(h) by {
                if let Some(nu) = y.upper {
                    if ty_contains(nu, h) {
                        assert(ty_free(nu, m));
                    }
                }
                if let Some(nl) = y.lower {
                    if ty_contains(nl, h) {
                        assert(ty_free(nl, m));
                    }
                }
            }
        }
    }
}

/// The number of nodes of a type: an upper bound on how deeply substitution
/// recurses into it.
pub open spec fn ty_size(t: Ty) -> nat
    decreases t,
{
    match t {
        Ty::F(f) => 1 + fn_size(*f),
        _ => 1,
    }
}

pub open spec fn fn_size(f: Function) -> nat
    decreases f,
{
    1 + list_size(f.from) + list_size(f.to)
}

pub open spec fn list_size(l: FList) -> nat
    decreases l,
{
    match l {
        FList::Nil => 1,
        FList::Cons(x, rest) => 1 + fty_size(x) + list_size(*rest),
    }
}

pub open spec fn fty_size(x: FTy) -> nat
    decreases x,
{
    match x {
        FTy::Gen(_) => 1,
        FTy::B(b) => 1 + bound_size(b),
        FTy::T(t) => 1 + ty_size(t),
    }
}

pub open spec fn bound_size(b: Bound) -> nat
    decreases b,
{
    1 + match b.upper {
        Some(u) => ty_size(u),
        None => 0,
    } + match b.lower {
        Some(l) => ty_size(l),
        None => 0,
    }
}

proof fn lemma_ty_rg_free_ok(t: Ty, m: Map<Gen, Binding>, d: nat)
    requires
        ty_free(t, m),
        d >= ty_size(t),
    ensures
        ty_rg(t, m, d) is Ok,
    decreases t, 0nat,
{
    if let Ty::F(f) = t {
        assert forall|g: Gen| #[trigger] fn_contains(*f, g) implies !m.contains_key(g) by {
            assert(ty_contains(t, g));
        }
        lemma_fn_rg_free_ok(*f, m, (d - 1) as nat);
    }
}

proof fn lemma_fn_rg_free_ok(f: Function, m: Map<Gen, Binding>, d: nat)
    requires
        fn_free(f, m),
        d >= fn_size(f),
    ensures
        fn_rg(f, m, d) is Ok,
    decreases f, 0nat,
{
    assert forall|g: Gen| #[trigger] list_contains(f.from, g) implies !m.contains_key(g) by {
        assert(fn_contains(f, g));
    }
    assert forall|g: Gen| #[trigger] list_contains(f.to, g) implies !m.contains_key(g) by {
        assert(fn_contains(f, g));
    }
    lemma_list_rg_free_ok(f.from, m, (d - 1) as nat);
    lemma_list_rg_free_ok(f.to, m, (d - 1) as nat);
}

proof fn lemma_list_rg_free_ok(l: FList, m: Map<Gen, Binding>, d: nat)
    requires
        list_free(l, m),
        d >= list_size(l),
    ensures
        list_rg(l, m, d) is Ok,
    decreases l, 0nat,
{
    if let FList::Cons(x, rest) = l {
        assert forall|g: Gen| #[trigger] fty_contains(x, g) implies !m.contains_key(g) by {
            assert(list_contains(l, g));
        }
        assert forall|g: Gen| #[trigger] list_contains(*rest, g) implies !m.contains_key(g) by {
            assert(list_contains(l, g));
        }
        lemma_fty_rg_free_ok(x, m, (d - 1) as nat);
        lemma_list_rg_free_ok(*rest, m, (d - 1) as nat);
    }
}

proof fn lemma_fty_rg_free_ok(x: FTy, m: Map<Gen, Binding>, d: nat)
    requires
        fty_free(x, m),
        d >= fty_size(x),
    ensures
        fty_rg(x, m, d) is Ok,
    decreases x, 0nat,
{
    match x {
        FTy::Gen(g) => {
            assert(fty_contains(x, g));
            assert(resolve_spec(g, m) == Ok::<FTy, TypeError>(FTy::Gen(g)));
        },
        FTy::B(b) => {
            assert forall|h: Gen| #[trigger] bound_contains(b, h) implies !m.contains_key(h) by {
                assert(fty_contains(x, h));
            }
            lemma_bound_rg_free_ok(b, m, (d - 1) as nat);
        },
        FTy::T(t) => {
            assert forall|h: Gen| #[trigger] ty_contains(t, h) implies !m.contains_key(h) by {
                assert(fty_contains(x, h));
            }
            lemma_ty_rg_free_ok(t, m, (d - 1) as nat);
        },
    }
}

proof fn lemma_bound_rg_free_ok(b: Bound, m: Map<Gen, Binding>, d: nat)
    requires
        bound_free(b, m),
        d >= bound_size(b),
    ensures
        bound_rg(b, m, d) is Ok,
    decreases b, 0nat,
{
    if let Some(u) = b.upper {
        assert forall|h: Gen| #[trigger] ty_contains(u, h) implies !m.contains_key(h) by {
            assert(bound_contains(b, h));
        }
        lemma_ty_rg_free_ok(u, m, (d - 1) as nat);
    }
    if let Some(l) = b.lower {
        assert forall|h: Gen| #[trigger] ty_contains(l, h) implies !m.contains_key(h) by {
            assert(bound_contains(b, h));
        }
        lemma_ty_rg_free_ok(l, m, (d - 1) as nat);
    }
}

/// Substitution settles a slot type: where it succeeds, no variable of the
/// result has an entry in the bindings, and substituting the result again
/// gives it back unchanged. A slot none of whose variables has an entry (so
/// every slot, where the bindings are empty) is left exactly as it is; the
/// count of nested calls is no limit for any slot that fits in memory.
pub proof fn law_substitution_settles(x: FTy, m: Map<Gen, Binding>)
    ensures
        fty_rg(x, m, MAX_DEPTH as nat) matches Ok(y) ==> fty_rg(y, m, MAX_DEPTH as nat) == Ok::<
            FTy,
            TypeError,
        >(y) && (forall|g: Gen| #[trigger] fty_contains(y, g) ==> !m.contains_key(g)),
        (forall|g: Gen| #[trigger] fty_contains(x, g) ==> !m.contains_key(g)) && fty_size(x)
            <= MAX_DEPTH ==> fty_rg(x, m, MAX_DEPTH as nat) == Ok::<FTy, TypeError>(x),
        fty_size(x) <= MAX_DEPTH ==> fty_rg(x, Map::<Gen, Binding>::empty(), MAX_DEPTH as nat)
            == Ok::<FTy, TypeError>(x),
{
    lemma_fty_rg_settles(x, m, MAX_DEPTH as nat);
    lemma_fty_rg_settles(x, Map::<Gen, Binding>::empty(), MAX_DEPTH as nat);
    if fty_free(x, m) && fty_size(x) <= MAX_DEPTH {
        lemma_fty_rg_free_ok(x, m, MAX_DEPTH as nat);
    }
    if fty_size(x) <= MAX_DEPTH {
        lemma_fty_rg_free_ok(x, Map::<Gen, Binding>::empty(), MAX_DEPTH as nat);
    }
}

// ----------------------------------------------------------------------
// Each use of a stored function gets fresh variables
// ----------------------------------------------------------------------

proof fn lemma_ty_rename_range(t: Ty, n: u64, base: Gen, g: Gen)
    requires
        forall|h: Gen| #[trigger] ty_contains(t, h) ==> h < n,
        base + n <= u64::MAX,
    ensures
        ty_contains(ty_rename(t, n, base), g) ==> base <= g < base + n,
    decreases t, 0nat,
{
    if let Ty::F(f) = t {
        assert forall|h: Gen| #[trigger] fn_contains(*f, h) implies h < n by {
            assert(ty_contains(t, h));
        }
        lemma_fn_rename_range(*f, n, base, g);
    }
}

proof fn lemma_fn_rename_range(f: Function, n: u64, base: Gen, g: Gen)
    requires
        forall|h: Gen| #[trigger] fn_contains(f, h) ==> h < n,
        base + n <= u64::MAX,
    ensures
        fn_contains(fn_rename(f, n, base), g) ==> base <= g < base + n,
    decreases f, 0nat,
{
    assert forall|h: Gen| #[trigger] list_contains(f.from, h) implies h < n by {
        assert(fn_contains(f, h));
    }
    assert forall|h: Gen| #[trigger] list_contains(f.to, h) implies h < n by {
        assert(fn_contains(f, h));
    }
    lemma_list_rename_range(f.from, n, base, g);
    lemma_list_rename_range(f.to, n, base, g);
}

proof fn lemma_list_rename_range(l: FList, n: u64, base: Gen, g: Gen)
    requires
        forall|h: Gen| #[trigger] list_contains(l, h) ==> h < n,
        base + n <= u64::MAX,
    ensures
        list_contains(list_rename(l, n, base), g) ==> base <= g < base + n,
    decreases l, 0nat,
{
    if let FList::Cons(x, rest) = l {
        assert forall|h: Gen| #[trigger] fty_contains(x, h) implies h < n by {
            assert(list_contains(l, h));
        }
        assert forall|h: Gen| #[trigger] list_contains(*rest, h) implies h < n by {
            assert(list_contains(l, h));
        }
        lemma_fty_rename_range(x, n, base, g);
        lemma_list_rename_range(*rest, n, base, g);
    }
}

proof fn lemma_fty_rename_range(x: FTy, n: u64, base: Gen, g: Gen)
    requires
        forall|h: Gen| #[trigger] fty_contains(x, h) ==> h < n,
        base + n <= u64::MAX,
    ensures
        fty_contains(fty_rename(x, n, base), g) ==> base <= g < base + n,
    decreases x, 0nat,
{
    match x {
        FTy::Gen(h) => {
            assert(fty_contains(x, h));
        },
        FTy::B(b) => {
            assert forall|h: Gen| #[trigger] bound_contains(b, h) implies h < n by {
                assert(fty_contains(x, h));
            }
            lemma_bound_rename_range(b, n, base, g);
        },
        FTy::T(t) => {
            assert forall|h: Gen| #[trigger] ty_contains(t, h) implies h < n by {
                assert(fty_contains(x, h));
            }
            lemma_ty_rename_range(t, n, base, g);
        },
    }
}

proof fn lemma_bound_rename_range(b: Bound, n: u64, base: Gen, g: Gen)
    requires
        forall|h: Gen| #[trigger] bound_contains(b, h) ==> h < n,
        base + n <= u64::MAX,
    ensures
        bound_contains(bound_rename(b, n, base), g) ==> base <= g < base + n,
    decreases b, 0nat,
{
    if let Some(u) = b.upper {
        assert forall|h: Gen| #[trigger] ty_contains(u, h) implies h < n by {
            assert(bound_contains(b, h));
        }
        lemma_ty_rename_range(u, n, base, g);
    }
    if let Some(l) = b.lower {
        assert forall|h: Gen| #[trigger] ty_contains(l, h) implies h < n by {
            assert(bound_contains(b, h));
        }
        lemma_ty_rename_range(l, n, base, g);
    }
}

/// Two uses of a stored function all of whose variables are parameters get
/// disjoint variables: the variables of each use lie between the counter
/// before it and the counter after it, so no variable is shared.
pub proof fn law_uses_get_fresh_variables(sc: Scheme, n0: Gen, g: Gen)
    requires
        forall|h: Gen| #[trigger] fn_contains(sc.body, h) ==> h < sc.params,
    ensures
        instantiate_spec(sc, n0) matches Ok((f1, n1)) ==> {
            &&& n0 <= n1
            &&& fn_contains(f1, g) ==> n0 <= g < n1
            &&& instantiate_spec(sc, n1) matches Ok((f2, n2)) ==> {
                &&& fn_contains(f2, g) ==> n1 <= g < n2
                &&& !(fn_contains(f1, g) && fn_contains(f2, g))
            }
        },
{
    if sc.params == 0 {
        if fn_contains(sc.body, g) {
            assert(g < sc.params);
        }
    } else {
        if n0 + sc.params <= u64::MAX {
            lemma_fn_rename_range(sc.body, sc.params, n0, g);
            let n1 = (n0 + sc.params) as u64;
            if n1 + sc.params <= u64::MAX {
                lemma_fn_rename_range(sc.body, sc.params, n1, g);
            }
        }
    }
}

/// Every built-in function's variables are parameters of its scheme, so each
/// use of a built-in gets variables of its own.
pub proof fn law_builtin_variables_are_parameters(i: int, h: Gen)
    requires
        0 <= i < builtin_entries().len(),
    ensures
        fn_contains(builtin_entries()[i].1.body, h) ==> h < builtin_entries()[i].1.params,
{
    let e = builtin_entries();
    let sc = e[i].1;
    let params_used = sc.params == 1;
    let from = if i == 1 {
        seq![FTy::T(Ty::Bool), FTy::Gen(0), FTy::Gen(0)]
    } else if i == 2 || i == 3 || i == 4 {
        seq![FTy::Gen(0)]
    } else if i == 5 {
        seq![FTy::Gen(0), FTy::Gen(0)]
    } else if i == 6 || i == 7 {
        seq![FTy::T(Ty::Int), FTy::T(Ty::Int)]
    } else {
        seq![]
    };
    let to = if i == 1 || i == 2 {
        seq![FTy::Gen(0)]
    } else if i == 3 {
        seq![FTy::Gen(0), FTy::Gen(0)]
    } else if i == 5 {
        seq![FTy::T(Ty::Bool)]
    } else if i == 6 || i == 7 {
        seq![FTy::T(Ty::Int)]
    } else {
        seq![]
    };
    assert(sc.body.from == crate::builtins::flist(from));
    assert(sc.body.to == crate::builtins::flist(to));
    lemma_flist_vars(from, params_used, h);
    lemma_flist_vars(to, params_used, h);
}

proof fn lemma_flist_vars(s: Seq<FTy>, allowed: bool, h: Gen)
    requires
        forall|j: int|
            0 <= j < s.len() ==> (allowed && s[j] == FTy::Gen(0)) || s[j] == FTy::T(Ty::Int) || s[j]
                == FTy::T(Ty::Bool),
    ensures
        list_contains(crate::builtins::flist(s), h) ==> allowed && h == 0,
    decreases s.len(),
{
    if s.len() > 0 {
        lemma_flist_vars(s.drop_first(), allowed, h);
        assert(fty_contains(s[0], h) ==> allowed && h == 0);
    }
}

// ----------------------------------------------------------------------
// A program that type checking accepts compiles
// ----------------------------------------------------------------------

/// Every name with an entry in `a` has one in `b`.
pub open spec fn names_within<V, W>(a: Env<V>, b: Env<W>) -> bool {
    forall|n: Name| #[trigger] env_get(a, n) is Some ==> env_get(b, n) is Some
}

/// Every store of a definition context and of the contexts open inside it
/// names only what the compiler's store names.
pub open spec fn fd_names_within(c: FDContext, code: Env<Seq<char>>) -> bool
    decreases c,
{
    &&& names_within(c.store, code)
    &&& match c.child_context {
        Some(child) => match *child {
            ContextType::FD(fd) => fd_names_within(fd, code),
        },
        None => true,
    }
}

/// As `fd_names_within`, for the context of the program.
pub open spec fn exec_names_within(c: ExecContext, code: Env<Seq<char>>) -> bool {
    &&& names_within(c.store, code)
    &&& match c.child_context {
        Some(child) => match *child {
            ContextType::FD(fd) => fd_names_within(fd, code),
        },
        None => true,
    }
}

proof fn lemma_names_within_trans<U, V, W>(a: Env<U>, b: Env<V>, c: Env<W>)
    requires
        names_within(a, b),
        names_within(b, c),
    ensures
        names_within(a, c),
{
    assert forall|n: Name| #[trigger] env_get(a, n) is Some implies env_get(c, n) is Some by {
        assert(env_get(b, n) is Some);
    }
}

proof fn lemma_fd_names_grow(c: FDContext, code: Env<Seq<char>>, code2: Env<Seq<char>>)
    requires
        fd_names_within(c, code),
        names_within(code, code2),
    ensures
        fd_names_within(c, code2),
    decreases c,
{
    lemma_names_within_trans(c.store, code, code2);
    if let Some(child) = c.child_context {
        let ContextType::FD(fd) = *child;
        lemma_fd_names_grow(fd, code, code2);
    }
}

proof fn lemma_insert_names_within<V, W>(a: Env<V>, b: Env<W>, k: Name, v: V, w: W)
    requires
        names_within(a, b),
    ensures
        names_within(env_insert(a, k, v), env_insert(b, k, w)),
        names_within(b, env_insert(b, k, w)),
{
    assert forall|n: Name| #[trigger] env_get(env_insert(a, k, v), n) is Some implies env_get(
        env_insert(b, k, w),
        n,
    ) is Some by {
        lemma_env_insert(a, k, v, n);
        lemma_env_insert(b, k, w, n);
        if n != k {
            assert(env_get(a, n) is Some);
        }
    }
    assert forall|n: Name| #[trigger] env_get(b, n) is Some implies env_get(
        env_insert(b, k, w),
        n,
    ) is Some by {
        lemma_env_insert(b, k, w, n);
    }
}

proof fn lemma_names_within_refl<V>(a: Env<V>)
    ensures
        names_within(a, a),
{
}

/// A stack operation that type checking accepts compiles, and the compiler's
/// store keeps naming what the checker's store names.
proof fn lemma_mod_stack_compiles<S: StackLike>(
    sm: StackMod,
    stack: S,
    store: crate::builtins::Store,
    next: Gen,
    st: CState,
)
    requires
        names_within(store, st.store),
        mod_stack_spec(sm, stack, store, next).0 is Ok,
    ensures
        compile_step(st, AstNode::S(sm)) matches Ok(st1) && names_within(st.store, st1.store)
            && names_within(mod_stack_spec(sm, stack, store, next).2, st1.store),
{
    match sm {
        StackMod::Id(id) => {
            assert(env_get(store, name_from(id@)) is Some);
        },
        StackMod::Quote(id) => {
            assert(env_get(store, name_from(id@)) is Some);
        },
        StackMod::Bind(id) => {
            let f = stack.pop_function_spec().0->Ok_0;
            let f_name = crate::compile::bound_name_spec(st.count, id@);
            lemma_insert_names_within(
                store,
                st.store,
                name_from(id@),
                Scheme { params: 0, body: f },
                f_name + "()"@,
            );
        },
        _ => {},
    }
}

proof fn lemma_fd_step_compiles(c: FDContext, node: AstNode, next: Gen, st: CState)
    requires
        fd_names_within(c, st.store),
        fd_check_spec(c, node, next).0 is Ok,
    ensures
        compile_step(st, node) matches Ok(st1) && names_within(st.store, st1.store) && (fd_check_spec(
            c,
            node,
            next,
        ).0 matches Ok(Checked::Continue(nc)) ==> fd_names_within(nc, st1.store)),
    decreases c,
{
    match c.child_context {
        Some(child) => {
            let ContextType::FD(fd) = *child;
            lemma_fd_step_compiles(fd, node, next, st);
            let st1 = compile_step(st, node)->Ok_0;
            lemma_names_within_trans(c.store, st.store, st1.store);
        },
        None => match node {
            AstNode::S(sm) => {
                lemma_mod_stack_compiles(sm, c.stack, c.store, next, st);
            },
            _ => {
                lemma_names_within_refl(st.store);
                let inner: FDContext = BaseContext {
                    stack: FuncDef::empty_spec(),
                    store: c.store,
                    child_context: None,
                };
                assert(fd_names_within(inner, st.store));
            },
        },
    }
}

proof fn lemma_exec_step_compiles(c: ExecContext, node: AstNode, next: Gen, st: CState)
    requires
        exec_names_within(c, st.store),
        exec_check_spec(c, node, next).0 is Ok,
    ensures
        compile_step(st, node) matches Ok(st1) && exec_names_within(
            exec_check_spec(c, node, next).0->Ok_0,
            st1.store,
        ),
{
    match c.child_context {
        Some(child) => {
            let ContextType::FD(fd) = *child;
            lemma_fd_step_compiles(fd, node, next, st);
            let st1 = compile_step(st, node)->Ok_0;
            lemma_names_within_trans(c.store, st.store, st1.store);
        },
        None => match node {
            AstNode::S(sm) => {
                lemma_mod_stack_compiles(sm, c.stack, c.store, next, st);
            },
            _ => {
                lemma_names_within_refl(st.store);
                let inner: FDContext = BaseContext {
                    stack: FuncDef::empty_spec(),
                    store: c.store,
                    child_context: None,
                };
                assert(fd_names_within(inner, st.store));
            },
        },
    }
}

proof fn lemma_typecheck_compiles(c: ExecContext, nodes: Seq<AstNode>, i: int, n: Gen, st: CState)
    requires
        0 <= i <= nodes.len(),
        exec_names_within(c, st.store),
        typecheck_from(c, nodes, i, n) is Ok,
    ensures
        compile_from(st, nodes, i) is Ok,
    decreases nodes.len() - i,
{
    if i < nodes.len() {
        lemma_exec_step_compiles(c, nodes[i], n, st);
        let (r, n1) = exec_check_spec(c, nodes[i], n);
        lemma_typecheck_compiles(r->Ok_0, nodes, i + 1, n1, compile_step(st, nodes[i])->Ok_0);
    }
}

/// A program that type checking accepts is compiled without error: every name
/// the checker finds, the compiler finds too, and its definitions nest.
pub proof fn law_checked_programs_compile(ast: Seq<AstNode>)
    ensures
        typecheck_spec(ast) is Ok ==> compile_spec(ast) is Ok && nesting_ok(ast),
{
    if typecheck_spec(ast) is Ok {
        law_checked_programs_nest(ast);
        assert forall|n: Name| #[trigger] env_get(initial_store(), n) is Some implies env_get(
            code_env_of(builtin_code_entries()),
            n,
        ) is Some by {
            law_builtins_have_code(n);
        }
        lemma_typecheck_compiles(start_context(initial_store()), ast, 0, 0, compile_start());
    }
}

// ----------------------------------------------------------------------
// A definition pushes one function and keeps its names to itself
// ----------------------------------------------------------------------

proof fn lemma_inside_definition(c: ExecContext, nodes: Seq<AstNode>, k: int, n: Gen, c0: ExecContext)
    requires
        nodes.len() >= 2,
        1 <= k <= nodes.len() - 1,
        nodes.last() is CloseFunc,
        forall|j: int| 1 <= j < nodes.len() ==> #[trigger] depth(nodes, j) >= 1,
        depth(nodes, nodes.len() as int) == 0,
        exec_depth(c) == depth(nodes, k),
        c.stack == c0.stack,
        c.store == c0.store,
    ensures
        typecheck_from(c, nodes, k, n) matches Ok(c2) ==> {
            &&& c2.child_context is None
            &&& c2.store == c0.store
            &&& c2.stack.0 matches TyList::Cons(Ty::F(_), rest) && *rest == c0.stack.0
        },
    decreases nodes.len() - k,
{
    let (r, n1) = exec_check_spec(c, nodes[k], n);
    lemma_exec_check_depth(c, nodes[k], n);
    assert(depth(nodes, k) >= 1);
    let ContextType::FD(fd) = *c.child_context->Some_0;
    lemma_fd_check_depth(fd, nodes[k], n);
    assert(depth(nodes, k + 1) == depth(nodes, k) + delta(nodes[k]));
    if k < nodes.len() - 1 {
        assert(depth(nodes, k + 1) >= 1);
        if let Ok(c1) = r {
            assert(!(fd_check_spec(fd, nodes[k], n).0 matches Ok(Checked::Closed(_))));
            assert(c1.stack == c0.stack && c1.store == c0.store);
            lemma_inside_definition(c1, nodes, k + 1, n1, c0);
        }
    } else {
        assert(depth(nodes, nodes.len() as int) == depth(nodes, k) - 1);
        assert(fd_depth(fd) == 0);
        if let Ok(c2) = r {
            let f = fd_collect(fd.stack)->Ok_0;
            law_collect_pushes_one_function(fd.stack);
            let out = f.to->Cons_0;
            assert(list_seq(f.from) =~= Seq::<FTy>::empty());
            assert(list_seq(f.to) =~= seq![out]);
            let s = c.stack.0;
            let t = out->T_0;
            let e = Map::<Gen, Binding>::empty();
            assert(stack_take_all(s, list_seq(f.from), e) == (Ok::<(), TypeError>(()), s, e));
            assert(typecheck_from(c2, nodes, k + 1, n1) == Ok::<ExecContext, TypeError>(c2));
            assert(c2.stack.0 == stack_push_outputs(s, seq![out], 0, e).1);
            let nt = ty_rg(t, e, (MAX_DEPTH - 1) as nat)->Ok_0;
            assert(nt is F);
            assert(fty_rg(out, e, MAX_DEPTH as nat) == Ok::<FTy, TypeError>(FTy::T(nt)));
            assert(stack_push_outputs(TyList::Cons(nt, Box::new(s)), seq![out], 1, e) == (
                Ok::<(), TypeError>(()),
                TyList::Cons(nt, Box::new(s)),
            ));
            assert(c2.stack.0 == TyList::Cons(nt, Box::new(s)));
        }
    }
}

/// A definition, checked in a program context with no definition open, pushes
/// exactly one function type on the program's stack and leaves the store as it
/// was: names bound inside the definition do not leak out of it.
pub proof fn law_definition_pushes_one_function(c: ExecContext, nodes: Seq<AstNode>, n: Gen)
    requires
        c.child_context is None,
        nodes.len() >= 2,
        nodes[0] is OpenFunc,
        nodes.last() is CloseFunc,
        forall|j: int| 1 <= j < nodes.len() ==> #[trigger] depth(nodes, j) >= 1,
        depth(nodes, nodes.len() as int) == 0,
    ensures
        typecheck_from(c, nodes, 0, n) matches Ok(c2) ==> {
            &&& c2.child_context is None
            &&& c2.store == c.store
            &&& c2.stack.0 matches TyList::Cons(Ty::F(_), rest) && *rest == c.stack.0
        },
{
    let (r, n1) = exec_check_spec(c, nodes[0], n);
    lemma_exec_check_depth(c, nodes[0], n);
    assert(depth(nodes, 0) == 0);
    assert(depth(nodes, 1) == 1);
    lemma_inside_definition(r->Ok_0, nodes, 1, n1, c);
}

// ----------------------------------------------------------------------
// A definition that applies one concrete function gives that function back
// ----------------------------------------------------------------------

/// Every slot of the list is a concrete type.
pub open spec fn all_concrete(l: FList) -> bool
    decreases l,
{
    match l {
        FList::Nil => true,
        FList::Cons(x, rest) => x is T && all_concrete(*rest),
    }
}

/// The list with the elements of `ts` in front of `acc`, `ts[0]` first.
pub open spec fn prepend_seq(ts: Seq<FTy>, acc: FList) -> FList
    decreases ts.len(),
{
    if ts.len() == 0 {
        acc
    } else {
        FList::Cons(ts[0], Box::new(prepend_seq(ts.drop_first(), acc)))
    }
}

/// `outs[i..]` pushed one by one onto `acc`, the last one ending on top.
pub open spec fn push_each(outs: Seq<FTy>, i: int, acc: FList) -> FList
    decreases outs.len() - i,
{
    if i < 0 || i >= outs.len() {
        acc
    } else {
        push_each(outs, i + 1, FList::Cons(outs[i], Box::new(acc)))
    }
}

proof fn lemma_prepend_push(s: Seq<FTy>, x: FTy, acc: FList)
    ensures
        prepend_seq(s.push(x), acc) == prepend_seq(s, FList::Cons(x, Box::new(acc))),
    decreases s.len(),
{
    if s.len() == 0 {
        assert(s.push(x).drop_first() =~= Seq::<FTy>::empty());
        assert(s.push(x)[0] == x);
        assert(prepend_seq(Seq::<FTy>::empty(), acc) == acc);
        assert(prepend_seq(s.push(x), acc) == FList::Cons(x, Box::new(acc)));
    } else {
        assert(s.push(x).drop_first() =~= s.drop_first().push(x));
        assert(s.push(x)[0] == s[0]);
        lemma_prepend_push(s.drop_first(), x, acc);
    }
}

proof fn lemma_prepend_list(l: FList)
    ensures
        prepend_seq(list_seq(l), FList::Nil) == l,
    decreases l,
{
    if let FList::Cons(x, rest) = l {
        assert(list_seq(l).drop_first() =~= list_seq(*rest));
        lemma_prepend_list(*rest);
    }
}

proof fn lemma_take_all_into_inputs(acc: FList, ts: Seq<FTy>, m: Map<Gen, Binding>)
    ensures
        fd_take_all(FuncDef { from: FDStack(acc), to: FDStack(FList::Nil) }, ts, m) == (
            Ok::<(), TypeError>(()),
            FuncDef { from: FDStack(prepend_seq(ts, acc)), to: FDStack(FList::Nil) },
            m,
        ),
    decreases ts.len(),
{
    if ts.len() > 0 {
        let x = ts.last();
        lemma_take_all_into_inputs(FList::Cons(x, Box::new(acc)), ts.drop_last(), m);
        lemma_prepend_push(ts.drop_last(), x, acc);
        assert(ts.drop_last().push(x) =~= ts);
    }
}

pub proof fn lemma_concrete_slots(l: FList)
    ensures
        forall|j: int|
            0 <= j < list_seq(l).len() ==> fty_size(#[trigger] list_seq(l)[j]) < list_size(l) && (
            all_concrete(l) ==> list_seq(l)[j] is T),
    decreases l,
{
    if let FList::Cons(x, rest) = l {
        lemma_concrete_slots(*rest);
        assert forall|j: int| 0 <= j < list_seq(l).len() implies fty_size(
            #[trigger] list_seq(l)[j],
        ) < list_size(l) && (all_concrete(l) ==> list_seq(l)[j] is T) by {
            if j > 0 {
                assert(list_seq(l)[j] == list_seq(*rest)[j - 1]);
            }
        }
    }
}

proof fn lemma_replace_concrete(l: FList, m: Map<Gen, Binding>, swap: bool)
    requires
        all_concrete(l),
    ensures
        fd_replace(l, m, swap) == (Ok::<(), TypeError>(()), l),
    decreases l,
{
    if let FList::Cons(x, rest) = l {
        lemma_replace_concrete(*rest, m, swap);
    }
}

proof fn lemma_collect_from_concrete(l: FList)
    requires
        all_concrete(l),
    ensures
        fd_collect_from(l) == Ok::<FList, TypeError>(l),
    decreases l,
{
    if let FList::Cons(x, rest) = l {
        lemma_collect_from_concrete(*rest);
    }
}

proof fn lemma_convert_to_concrete(l: FList)
    requires
        all_concrete(l),
    ensures
        fd_convert_to(l) == Ok::<FList, TypeError>(l),
    decreases l,
{
    if let FList::Cons(x, rest) = l {
        lemma_convert_to_concrete(*rest);
    }
}

proof fn lemma_push_concrete_outputs(acc: FList, outs: Seq<FTy>, i: int)
    requires
        0 <= i <= outs.len(),
        all_concrete(acc),
        forall|j: int|
            i <= j < outs.len() ==> (#[trigger] outs[j]) is T && fty_size(outs[j]) <= MAX_DEPTH,
    ensures
        fd_push_outputs(acc, outs, i, Map::<Gen, Binding>::empty()) == (
            Ok::<(), TypeError>(()),
            push_each(outs, i, acc),
        ),
        all_concrete(push_each(outs, i, acc)),
        list_reverse_onto(push_each(outs, i, acc), FList::Nil) == list_reverse_onto(
            acc,
            prepend_seq(outs.subrange(i, outs.len() as int), FList::Nil),
        ),
    decreases outs.len() - i,
{
    if i < outs.len() {
        let x = outs[i];
        law_substitution_settles(x, Map::<Gen, Binding>::empty());
        lemma_push_concrete_outputs(FList::Cons(x, Box::new(acc)), outs, i + 1);
        assert(outs.subrange(i, outs.len() as int).drop_first() =~= outs.subrange(
            i + 1,
            outs.len() as int,
        ));
    } else {
        assert(outs.subrange(i, outs.len() as int) =~= Seq::<FTy>::empty());
    }
}

/// A definition that applies one function whose inputs and outputs are all
/// concrete types collects into a function pushing exactly that function.
pub proof fn law_collect_gives_back_applied(f: Function)
    requires
        all_concrete(f.from),
        all_concrete(f.to),
        fn_size(f) <= MAX_DEPTH,
    ensures
        ({
            let (r, fd) = fd_apply(FuncDef { from: FDStack(FList::Nil), to: FDStack(FList::Nil) }, f);
            &&& r is Ok
            &&& fd_collect(fd) == Ok::<Function, TypeError>(
                Function { from: FList::Nil, to: single(FTy::T(Ty::F(Box::new(f)))) },
            )
        }),
{
    let e = Map::<Gen, Binding>::empty();
    lemma_take_all_into_inputs(FList::Nil, list_seq(f.from), e);
    lemma_prepend_list(f.from);
    lemma_replace_concrete(f.from, e, true);
    lemma_replace_concrete(FList::Nil, e, false);
    lemma_concrete_slots(f.to);
    let outs = list_seq(f.to);
    lemma_push_concrete_outputs(FList::Nil, outs, 0);
    assert(outs.subrange(0, outs.len() as int) =~= outs);
    lemma_prepend_list(f.to);
    lemma_collect_from_concrete(f.from);
    lemma_convert_to_concrete(push_each(outs, 0, FList::Nil));
}

// ----------------------------------------------------------------------
// How compiled code is made of the code of the nodes
// ----------------------------------------------------------------------

pub proof fn lemma_compile_from_skip(st: CState, s: Seq<AstNode>, i: int)
    requires
        0 <= i <= s.len(),
    ensures
        compile_from(st, s, i) == compile_from(st, s.skip(i), 0),
    decreases s.len() - i,
{
    if i < s.len() {
        assert(s.skip(i)[0] == s[i]);
        match compile_step(st, s[i]) {
            Ok(st1) => {
                lemma_compile_from_skip(st1, s, i + 1);
                lemma_compile_from_skip(st1, s.skip(i), 1);
                assert(s.skip(i).skip(1) =~= s.skip(i + 1));
            },
            Err(_) => {},
        }
    } else {
        assert(s.skip(i).len() == 0);
    }
}

/// The nodes without the arity annotations.
pub open spec fn drop_arities(s: Seq<AstNode>) -> Seq<AstNode>
    decreases s.len(),
{
    if s.len() == 0 {
        s
    } else if s[0] matches AstNode::S(StackMod::Arity(_, _)) {
        drop_arities(s.drop_first())
    } else {
        seq![s[0]] + drop_arities(s.drop_first())
    }
}

proof fn lemma_compile_drop_arities(st: CState, s: Seq<AstNode>)
    ensures
        compile_from(st, s, 0) == compile_from(st, drop_arities(s), 0),
    decreases s.len(),
{
    if s.len() > 0 {
        lemma_compile_from_skip(st, s, 1);
        assert(s.skip(1) =~= s.drop_first());
        if s[0] matches AstNode::S(StackMod::Arity(_, _)) {
            lemma_compile_drop_arities(st, s.drop_first());
        } else {
            let t = seq![s[0]] + drop_arities(s.drop_first());
            assert(t[0] == s[0]);
            if let Ok(st1) = compile_step(st, s[0]) {
                lemma_compile_from_skip(st1, t, 1);
                assert(t.skip(1) =~= drop_arities(s.drop_first()));
                lemma_compile_drop_arities(st1, s.drop_first());
                lemma_compile_from_skip(st1, s, 1);
            }
        }
    }
}

/// Arity annotations leave no trace in compiled code: a program compiles to
/// what it compiles to without them.
pub proof fn law_arities_compile_to_nothing(ast: Seq<AstNode>)
    ensures
        compile_spec(ast) == compile_spec(drop_arities(ast)),
{
    lemma_compile_drop_arities(compile_start(), ast);
}

/// A node that neither opens nor closes a definition nor binds a name.
pub open spec fn straight(n: AstNode) -> bool {
    n is S && !(n matches AstNode::S(StackMod::Bind(_)))
}

/// The lines compiled for straight nodes with the names of `store`.
pub open spec fn straight_lines(store: Env<Seq<char>>, s: Seq<AstNode>) -> Result<
    Seq<Seq<char>>,
    Seq<char>,
>
    decreases s.len(),
{
    if s.len() == 0 {
        Ok(Seq::empty())
    } else {
        match compile_step(
            CState { frames: Seq::empty(), code: Seq::empty(), store, count: 0 },
            s[0],
        ) {
            Err(e) => Err(e),
            Ok(st1) => match straight_lines(store, s.drop_first()) {
                Err(e) => Err(e),
                Ok(rest) => Ok(st1.code + rest),
            },
        }
    }
}

proof fn lemma_straight_step(st: CState, n: AstNode)
    requires
        straight(n),
    ensures
        compile_step(st, n) == match compile_step(
            CState { frames: Seq::empty(), code: Seq::empty(), store: st.store, count: 0 },
            n,
        ) {
            Ok(s1) => Ok::<CState, Seq<char>>(CState { code: st.code + s1.code, ..st }),
            Err(e) => Err(e),
        },
{
    let e = CState { frames: Seq::empty(), code: Seq::empty(), store: st.store, count: 0 };
    if let Ok(s1) = compile_step(e, n) {
        if s1.code.len() == 0 {
            assert(st.code + s1.code =~= st.code);
        } else {
            assert(st.code + s1.code =~= st.code.push(s1.code[0]));
        }
    }
}

pub proof fn lemma_straight_compile(st: CState, s: Seq<AstNode>)
    requires
        forall|j: int| 0 <= j < s.len() ==> straight(#[trigger] s[j]),
    ensures
        compile_from(st, s, 0) == match straight_lines(st.store, s) {
            Ok(l) => Ok::<CState, Seq<char>>(CState { code: st.code + l, ..st }),
            Err(e) => Err(e),
        },
    decreases s.len(),
{
    if s.len() == 0 {
        assert(st.code + Seq::<Seq<char>>::empty() =~= st.code);
    } else {
        lemma_straight_step(st, s[0]);
        lemma_compile_from_skip(st, s, 1);
        assert(s.skip(1) =~= s.drop_first());
        if let Ok(st1) = compile_step(st, s[0]) {
            lemma_compile_from_skip(st1, s, 1);
            lemma_straight_compile(st1, s.drop_first());
            let e = CState { frames: Seq::empty(), code: Seq::empty(), store: st.store, count: 0 };
            let s1 = compile_step(e, s[0])->Ok_0;
            if let Ok(rest) = straight_lines(st.store, s.drop_first()) {
                assert(st.code + s1.code + rest =~= st.code + (s1.code + rest));
            }
        }
    }
}

proof fn lemma_straight_lines_concat(store: Env<Seq<char>>, a: Seq<AstNode>, b: Seq<AstNode>)
    ensures
        straight_lines(store, a + b) == match straight_lines(store, a) {
            Err(e) => Err(e),
            Ok(la) => match straight_lines(store, b) {
                Err(e) => Err(e),
                Ok(lb) => Ok::<Seq<Seq<char>>, Seq<char>>(la + lb),
            },
        },
    decreases a.len(),
{
    if a.len() == 0 {
        assert(a + b =~= b);
        if let Ok(lb) = straight_lines(store, b) {
            assert(Seq::<Seq<char>>::empty() + lb =~= lb);
        }
    } else {
        assert((a + b).drop_first() =~= a.drop_first() + b);
        assert((a + b)[0] == a[0]);
        lemma_straight_lines_concat(store, a.drop_first(), b);
        let e = CState { frames: Seq::empty(), code: Seq::empty(), store, count: 0 };
        if let Ok(s1) = compile_step(e, a[0]) {
            if let Ok(ra) = straight_lines(store, a.drop_first()) {
                if let Ok(lb) = straight_lines(store, b) {
                    assert(s1.code + (ra + lb) =~= s1.code + ra + lb);
                }
            }
        }
    }
}

/// The code of a program of straight nodes (no definition, no naming): the
/// first line, the lines of its nodes, and the line that prints the stack.
pub open spec fn straight_program(lines: Seq<Seq<char>>) -> Seq<char> {
    join_spec(seq!["stack = []"@] + lines + seq!["print(stack)"@], "\n"@)
}

/// Compiling two programs of straight nodes one after the other gives the
/// lines of the first followed by those of the second, between the same
/// first and last lines; an error of either is the error of the whole.
pub proof fn law_straight_programs_concatenate(a: Seq<AstNode>, b: Seq<AstNode>)
    requires
        forall|j: int| 0 <= j < a.len() ==> straight(#[trigger] a[j]),
        forall|j: int| 0 <= j < b.len() ==> straight(#[trigger] b[j]),
    ensures
        compile_spec(a) == match straight_lines(code_env_of(builtin_code_entries()), a) {
            Ok(la) => Ok::<Seq<char>, Seq<char>>(straight_program(la)),
            Err(e) => Err(e),
        },
        compile_spec(a + b) == match straight_lines(code_env_of(builtin_code_entries()), a) {
            Err(e) => Err(e),
            Ok(la) => match straight_lines(code_env_of(builtin_code_entries()), b) {
                Err(e) => Err(e),
                Ok(lb) => Ok::<Seq<char>, Seq<char>>(straight_program(la + lb)),
            },
        },
{
    let st = compile_start();
    let store = code_env_of(builtin_code_entries());
    assert forall|j: int| 0 <= j < (a + b).len() implies straight(#[trigger] (a + b)[j]) by {
        if j < a.len() {
            assert((a + b)[j] == a[j]);
        } else {
            assert((a + b)[j] == b[j - a.len()]);
        }
    }
    lemma_straight_compile(st, a);
    lemma_straight_compile(st, a + b);
    lemma_straight_lines_concat(store, a, b);
    if let Ok(la) = straight_lines(store, a) {
        assert((st.code + la).push("print(stack)"@) =~= seq!["stack = []"@] + la + seq![
            "print(stack)"@,
        ]);
        if let Ok(lb) = straight_lines(store, b) {
            assert((st.code + (la + lb)).push("print(stack)"@) =~= seq!["stack = []"@] + (la + lb)
                + seq!["print(stack)"@]);
        }
    }
}

} // verus!
