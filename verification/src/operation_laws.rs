//! Laws on what single operations do, stated in terms of their inputs and
//! results.
use crate::ast::{is_digit, is_name_char, name_end, parse_spec, AstNode, StackMod, Token};
use crate::compile::{
    builtin_code_entries, code_env_of, compile_from, compile_spec, compile_step, decimal_spec,
    digit_spec,
    indent_spec, join_spec, CState,
};
use crate::ast::{digits_end, digits_value, is_space, scan, spaces_end};
use crate::env::{env_get, lemma_env_insert, name_from, name_seq, Env, Name};
use crate::laws::{
    tok_depth, tokens_balanced, all_concrete, law_apply_height, law_substitution_settles, lemma_compile_from_skip,
    lemma_straight_compile, lemma_concrete_slots, list_size,
    law_straight_programs_concatenate, straight, straight_lines, straight_program,
};
use crate::merge::{
    arity_compatible, bound_lower, bound_merge, bound_sound, bound_upper, fn_meet, fty_merge,
    list_len, ty_lub,
};
use crate::builtins::{Scheme, Store};
use crate::stacklike::{arity_ty, gen_list, mod_stack_spec, pushes, single, stack_apply, stack_pop_function};
use crate::resolve::{fty_rg, MAX_DEPTH};
use crate::types::{ty_contains, Bound};
use crate::bindings::resolve_spec;
use crate::stacklike::{stack_push_outputs, stack_seq, stack_take_all, stack_take_one, Stack, StackLike, TyList};
use crate::types::{fty_contains, list_contains, list_seq, Binding, FList, FTy, Function, Gen, Ty, TypeError};
use vstd::prelude::*;

verus! {

// ----------------------------------------------------------------------
// The reader: names end where a delimiter begins
// ----------------------------------------------------------------------

/// A name: a non-empty run of name characters not starting with a digit.
pub open spec fn is_name(n: Seq<char>) -> bool {
    &&& n.len() > 0
    &&& !is_digit(n[0])
    &&& forall|i: int| 0 <= i < n.len() ==> is_name_char(#[trigger] n[i])
}

proof fn lemma_name_end_run(s: Seq<char>, i: int, k: int)
    requires
        0 <= i <= k <= s.len(),
        forall|j: int| i <= j < k ==> is_name_char(#[trigger] s[j]),
        k == s.len() || !is_name_char(s[k]),
    ensures
        name_end(s, i) == k,
    decreases k - i,
{
    if i < k {
        lemma_name_end_run(s, i + 1, k);
    }
}

/// Every delimiter, and white space, ends a name: the run of name characters
/// of `n` followed by any of them stops at the end of `n`.
pub proof fn law_delimiters_end_names(n: Seq<char>, c: char)
    requires
        is_name(n),
        c == '[' || c == ']' || c == '(' || c == ')' || c == '\'' || c == '$' || c == '!' || c
            == ' ' || c == '\t' || c == '\n' || c == '\r',
    ensures
        name_end(n.push(c), 0) == n.len(),
{
    let s = n.push(c);
    assert forall|j: int| 0 <= j < n.len() implies is_name_char(#[trigger] s[j]) by {
        assert(s[j] == n[j]);
    }
    lemma_name_end_run(s, 0, n.len() as int);
}

/// A name written between brackets, with no space, is read as a definition
/// holding that one name.
pub proof fn law_bracketed_name(n: Seq<char>)
    requires
        is_name(n),
    ensures
        parse_spec(seq!['['] + n + seq![']']) == Ok::<Seq<Token>, crate::ast::ParseError>(
            seq![Token::Open, Token::Id(n), Token::Close],
        ),
{
    let s = seq!['['] + n + seq![']'];
    let k: int = n.len() as int + 1;
    assert(s[0] == '[');
    assert(s[k] == ']');
    assert(s[1] == n[0]);
    assert forall|j: int| 1 <= j < k implies is_name_char(#[trigger] s[j]) by {
        assert(s[j] == n[j - 1]);
    }
    lemma_name_end_run(s, 1, k);
    assert(s.subrange(1, k) =~= n);
    let a1 = seq![Token::Open];
    let a2 = a1.push(Token::Id(n));
    let a3 = a2.push(Token::Close);
    crate::ast::lemma_runs_advance(s, 0);
    crate::ast::lemma_runs_advance(s, 1);
    crate::ast::lemma_runs_advance(s, k);
    assert(crate::ast::scan(s, k + 1, 0, a3, false) == Ok::<Seq<Token>, crate::ast::ParseError>(a3));
    assert(crate::ast::scan(s, k, 1, a2, false) == crate::ast::scan(s, k + 1, 0, a3, false));
    assert(is_name_char(n[0]));
    assert(crate::ast::scan(s, 1, 1, a1, false) == crate::ast::scan(s, k, 1, a2, false));
    assert(Seq::<Token>::empty().push(Token::Open) =~= a1);
    assert(crate::ast::scan(s, 0, 0, Seq::empty(), false) == crate::ast::scan(s, 1, 1, a1, false));
    assert(a3 =~= seq![Token::Open, Token::Id(n), Token::Close]);
}

// ----------------------------------------------------------------------
// The code of the built-in functions
// ----------------------------------------------------------------------

proof fn lemma_name_seq_from(s: Seq<char>)
    ensures
        name_seq(name_from(s)) == s,
    decreases s.len(),
{
    if s.len() > 0 {
        lemma_name_seq_from(s.drop_first());
        assert(seq![s[0]] + s.drop_first() =~= s);
    }
}

proof fn lemma_code_lookup(e: Seq<(Seq<char>, Seq<char>)>, k: Seq<char>, i: int)
    requires
        0 <= i < e.len(),
        e[i].0 == k,
        forall|j: int| 0 <= j < i ==> (#[trigger] e[j]).0 != k,
    ensures
        env_get(code_env_of(e), name_from(k)) == Some(e[i].1),
    decreases i,
{
    lemma_name_seq_from(k);
    lemma_name_seq_from(e[0].0);
    if i > 0 {
        assert forall|j: int| 0 <= j < i - 1 implies (#[trigger] e.drop_first()[j]).0 != k by {
            assert(e.drop_first()[j] == e[j + 1]);
        }
        lemma_code_lookup(e.drop_first(), k, i - 1);
    }
}

/// The line compiled for a use of each built-in name, spelled out.
pub open spec fn builtin_line(name: Seq<char>) -> Seq<char> {
    if name == "add"@ {
        "stack.append(stack.pop(-2) + stack.pop())"@
    } else if name == "sub"@ {
        "stack.append(stack.pop(-2) - stack.pop())"@
    } else if name == "="@ {
        "stack.append(stack.pop(-2) == stack.pop())"@
    } else if name == "dup"@ {
        "stack.append(stack[-1])"@
    } else if name == "drop"@ {
        "stack.pop()"@
    } else {
        "pass"@
    }
}

proof fn lemma_builtin_line(name: Seq<char>, i: int)
    requires
        0 <= i < 8,
        name == builtin_code_entries()[i].0,
        name != "?"@,
    ensures
        env_get(code_env_of(builtin_code_entries()), name_from(name)) == Some(builtin_line(name)),
{
    reveal_strlit("'");
    reveal_strlit("?");
    reveal_strlit("id");
    reveal_strlit("dup");
    reveal_strlit("drop");
    reveal_strlit("=");
    reveal_strlit("add");
    reveal_strlit("sub");
    reveal_strlit("stack.append(");
    reveal_strlit(")");
    reveal_strlit("stack.pop(-2) ");
    reveal_strlit(" stack.pop()");
    reveal_strlit("+");
    reveal_strlit("-");
    reveal_strlit("==");
    reveal_strlit("stack[-1]");
    reveal_strlit("stack.pop()");
    reveal_strlit("pass");
    reveal_strlit("stack.append(stack.pop(-2) + stack.pop())");
    reveal_strlit("stack.append(stack.pop(-2) - stack.pop())");
    reveal_strlit("stack.append(stack.pop(-2) == stack.pop())");
    reveal_strlit("stack.append(stack[-1])");
    let e = builtin_code_entries();
    assert forall|j: int| 0 <= j < i implies (#[trigger] e[j]).0 != name by {}
    lemma_code_lookup(e, name, i);
    assert(e[i].1 =~= builtin_line(name));
}

/// Using a built-in name after any straight program adds exactly the line of
/// that built-in: `add` adds the two top values, `sub` subtracts the top one
/// from the one below it, `=` compares them, `dup` copies the top, `drop`
/// removes it, and `id` and `'` do nothing.
pub proof fn law_builtin_code(a: Seq<AstNode>, id: String)
    requires
        forall|j: int| 0 <= j < a.len() ==> straight(#[trigger] a[j]),
        id@ == "add"@ || id@ == "sub"@ || id@ == "="@ || id@ == "dup"@ || id@ == "drop"@ || id@
            == "id"@ || id@ == "'"@,
    ensures
        compile_spec(a.push(AstNode::S(StackMod::Id(id)))) == match straight_lines(
            code_env_of(builtin_code_entries()),
            a,
        ) {
            Ok(la) => Ok::<Seq<char>, Seq<char>>(straight_program(la.push(builtin_line(id@)))),
            Err(e) => Err(e),
        },
{
    reveal_strlit("'");
    reveal_strlit("?");
    reveal_strlit("id");
    reveal_strlit("dup");
    reveal_strlit("drop");
    reveal_strlit("=");
    reveal_strlit("add");
    reveal_strlit("sub");
    let name = id@;
    let i: int = if name == "'"@ {
        0
    } else if name == "id"@ {
        2
    } else if name == "dup"@ {
        3
    } else if name == "drop"@ {
        4
    } else if name == "="@ {
        5
    } else if name == "add"@ {
        6
    } else {
        7
    };
    lemma_builtin_line(name, i);
    let x = AstNode::S(StackMod::Id(id));
    let b = seq![x];
    assert forall|j: int| 0 <= j < b.len() implies straight(#[trigger] b[j]) by {}
    law_straight_programs_concatenate(a, b);
    assert(a + b =~= a.push(x));
    let store = code_env_of(builtin_code_entries());
    let e0 = CState { frames: Seq::empty(), code: Seq::empty(), store, count: 0 };
    assert(b.drop_first() =~= Seq::<AstNode>::empty());
    assert(b[0] == x);
    assert(straight_lines(store, Seq::<AstNode>::empty()) == Ok::<Seq<Seq<char>>, Seq<char>>(
        Seq::empty(),
    ));
    let st1 = compile_step(e0, x)->Ok_0;
    assert(st1.code =~= seq![builtin_line(name)]);
    assert(straight_lines(store, b) == Ok::<Seq<Seq<char>>, Seq<char>>(
        st1.code + Seq::<Seq<char>>::empty(),
    ));
    assert(st1.code + Seq::<Seq<char>>::empty() =~= seq![builtin_line(name)]);
    if let Ok(la) = straight_lines(store, a) {
        assert(la + seq![builtin_line(name)] =~= la.push(builtin_line(name)));
    }
}

// ----------------------------------------------------------------------
// Applying a function to the program's stack
// ----------------------------------------------------------------------

proof fn lemma_take_all_removes_top(s: TyList, ts: Seq<FTy>, m: Map<Gen, Binding>)
    ensures
        ({
            let (r, s1, _) = stack_take_all(s, ts, m);
            r is Ok ==> ts.len() <= stack_seq(s).len() && stack_seq(s1) == stack_seq(s).take(
                stack_seq(s).len() - ts.len(),
            )
        }),
    decreases ts.len(),
{
    if ts.len() == 0 {
        assert(stack_seq(s).take(stack_seq(s).len() as int) =~= stack_seq(s));
    } else {
        let (r, s1, m1) = stack_take_one(s, ts.last(), m);
        if let TyList::Cons(t, rest) = s {
            if r is Ok {
                lemma_take_all_removes_top(s1, ts.drop_last(), m1);
                let q = stack_seq(s);
                assert(q == stack_seq(*rest).push(t));
                assert(s1 == *rest);
                assert(stack_seq(*rest) =~= q.take(q.len() - 1));
                if stack_take_all(s, ts, m).0 is Ok {
                    assert(q.take(q.len() - 1).take(q.len() - ts.len()) =~= q.take(
                        q.len() - ts.len(),
                    ));
                }
            }
        }
    }
}

proof fn lemma_push_concrete(s: TyList, outs: Seq<FTy>, i: int, m: Map<Gen, Binding>)
    requires
        0 <= i <= outs.len(),
        forall|j: int|
            i <= j < outs.len() ==> (#[trigger] outs[j]) is T && fty_rg(outs[j], m, MAX_DEPTH as nat)
                == Ok::<FTy, TypeError>(outs[j]),
    ensures
        ({
            let (r, s1) = stack_push_outputs(s, outs, i, m);
            &&& r is Ok
            &&& stack_seq(s1) == stack_seq(s) + Seq::new(
                (outs.len() - i) as nat,
                |j: int| outs[i + j]->T_0,
            )
        }),
    decreases outs.len() - i,
{
    if i < outs.len() {
        let t = outs[i]->T_0;
        lemma_push_concrete(TyList::Cons(t, Box::new(s)), outs, i + 1, m);
        assert(stack_seq(TyList::Cons(t, Box::new(s))) == stack_seq(s).push(t));
        assert(stack_seq(s).push(t) + Seq::new(
            (outs.len() - i - 1) as nat,
            |j: int| outs[i + 1 + j]->T_0,
        ) =~= stack_seq(s) + Seq::new((outs.len() - i) as nat, |j: int| outs[i + j]->T_0));
    } else {
        assert(stack_seq(s) + Seq::new(0, |j: int| outs[i + j]->T_0) =~= stack_seq(s));
    }
}

proof fn lemma_list_seq_contains(l: FList, j: int, g: Gen)
    requires
        0 <= j < list_seq(l).len(),
        fty_contains(list_seq(l)[j], g),
    ensures
        list_contains(l, g),
    decreases l,
{
    if let FList::Cons(x, rest) = l {
        if j > 0 {
            assert(list_seq(l)[j] == list_seq(*rest)[j - 1]);
            lemma_list_seq_contains(*rest, j - 1, g);
        }
    }
}

/// Applying a function whose outputs are concrete types to the program's
/// stack takes its inputs off the top and then pushes its outputs in order,
/// the last output ending on top.
pub proof fn law_apply_pushes_outputs_in_order(s: Stack, f: Function)
    requires
        all_concrete(f.to),
        forall|g: Gen| !list_contains(f.to, g),
        list_size(f.to) <= MAX_DEPTH,
    ensures
        ({
            let (r, s2) = s.apply_spec(f);
            let before = stack_seq(s.0);
            let ins = list_seq(f.from).len();
            let outs = list_seq(f.to);
            r is Ok ==> ins <= before.len() && stack_seq(s2.0) == before.take(before.len() - ins)
                + Seq::new(outs.len(), |j: int| outs[j]->T_0)
        }),
{
    let (r, s1, m1) = stack_take_all(s.0, list_seq(f.from), Map::empty());
    lemma_take_all_removes_top(s.0, list_seq(f.from), Map::empty());
    if r is Ok {
        let outs = list_seq(f.to);
        lemma_concrete_slots(f.to);
        assert forall|j: int| 0 <= j < outs.len() implies (#[trigger] outs[j]) is T && fty_rg(
            outs[j],
            m1,
            MAX_DEPTH as nat,
        ) == Ok::<FTy, TypeError>(outs[j]) by {
            assert forall|g: Gen| #[trigger] fty_contains(outs[j], g) implies !m1.contains_key(g) by {
                lemma_list_seq_contains(f.to, j, g);
            }
            law_substitution_settles(outs[j], m1);
        }
        lemma_push_concrete(s1, outs, 0, m1);
        assert(Seq::new((outs.len() - 0) as nat, |j: int| outs[0 + j]->T_0) =~= Seq::new(
            outs.len(),
            |j: int| outs[j]->T_0,
        ));
    }
}

// ----------------------------------------------------------------------
// Bounds whose ends cannot meet are refused
// ----------------------------------------------------------------------

/// Two types that no merge can reconcile: a function type and another type,
/// or two different types that are not function types.
pub open spec fn differ_in_shape(u: Ty, l: Ty) -> bool {
    (u is F) != (l is F) || (!(u is F) && u != l)
}

proof fn lemma_lub_refuses(u: Ty, l: Ty, m: Map<Gen, Binding>, d: nat)
    requires
        differ_in_shape(u, l),
        d >= 1,
    ensures
        ty_lub(u, l, m, d).0 is Err,
{
}

/// A bound whose upper end and lower end differ in shape is not sound, under
/// any bindings.
pub proof fn law_unsound_bound(u: Ty, l: Ty, m: Map<Gen, Binding>, d: nat)
    requires
        differ_in_shape(u, l),
        d >= 2,
    ensures
        bound_sound(Bound { upper: Some(u), lower: Some(l) }, m, d).0 is Err,
{
    lemma_lub_refuses(u, l, m, (d - 1) as nat);
}

/// A slot bounded above by `u` never accepts a value of a type `l` that differs
/// from `u` in shape (such as `Bool` where `Int` is the most allowed), whichever
/// side of the merge it stands on and whatever the bindings.
pub proof fn law_upper_bound_refuses_other_shapes(u: Ty, l: Ty, m: Map<Gen, Binding>, d: nat)
    requires
        differ_in_shape(u, l),
        d >= 5,
    ensures
        fty_merge(
            FTy::B(Bound { upper: Some(u), lower: None }),
            FTy::B(Bound { upper: None, lower: Some(l) }),
            m,
            d,
        ).0 is Err,
        fty_merge(FTy::B(Bound { upper: Some(u), lower: None }), FTy::T(l), m, d).0 is Err,
        fty_merge(
            FTy::B(Bound { upper: None, lower: Some(l) }),
            FTy::B(Bound { upper: Some(u), lower: None }),
            m,
            d,
        ).0 is Err,
        fty_merge(FTy::T(l), FTy::B(Bound { upper: Some(u), lower: None }), m, d).0 is Err,
{
    let both = Bound { upper: Some(u), lower: Some(l) };
    let up = Bound { upper: Some(u), lower: None };
    let low = Bound { upper: None, lower: Some(l) };
    law_unsound_bound(u, l, m, (d - 3) as nat);
    assert(bound_lower(up, l, m, (d - 2) as nat).0 is Err);
    assert(bound_merge(up, low, m, (d - 1) as nat).0 is Err);
    assert(bound_upper(low, u, m, (d - 2) as nat).0 is Err);
    assert(bound_merge(low, up, m, (d - 1) as nat).0 is Err);
}

// ----------------------------------------------------------------------
// Arity annotations check the top of the stack
// ----------------------------------------------------------------------

proof fn lemma_gen_list_len(start: Gen, n: nat)
    ensures
        list_len(gen_list(start, n)) == n,
    decreases n,
{
    if n > 0 {
        lemma_gen_list_len((start + 1) as u64, (n - 1) as nat);
    }
}

/// An arity annotation `(a b)` is accepted only where the top of the program's
/// stack is a function type whose numbers of inputs and outputs differ as `a`
/// and `b` do (a function taking `a` values and leaving `b`, possibly passing
/// further values through); a value that is no function, or an empty stack,
/// is refused. An accepted annotation leaves the height of the stack and the
/// store as they were.
pub proof fn law_arity_checks_the_top(a: u32, b: u32, s: Stack, store: Store, next: Gen)
    ensures
        ({
            let (r, s1, st1, _) = mod_stack_spec(StackMod::Arity(a, b), s, store, next);
            r is Ok ==> {
                &&& s.0 matches TyList::Cons(Ty::F(tf), _) && list_len(tf.from) + b == list_len(
                    tf.to,
                ) + a
                &&& st1 == store
                &&& stack_seq(s1.0).len() == stack_seq(s.0).len()
            }
        }),
{
    if a + b <= u32::MAX && next + a + b <= u64::MAX {
        let wanted = arity_ty(a, b, next);
        let wf = *(wanted->F_0);
        let g = Function { from: single(FTy::T(wanted)), to: single(FTy::T(wanted)) };
        law_apply_height(s, g);
        lemma_gen_list_len(next, a as nat);
        lemma_gen_list_len((next + a) as u64, b as nat);
        assert(list_seq(g.from) =~= seq![FTy::T(wanted)]);
        let e = Map::<Gen, Binding>::empty();
        let dd = MAX_DEPTH as nat;
        if let TyList::Cons(t, rest) = s.0 {
            let o = FTy::B(Bound { upper: None, lower: Some(t) });
            let sb = Bound { upper: None, lower: Some(wanted) };
            let ob = Bound { upper: None, lower: Some(t) };
            match t {
                Ty::F(tf) => {
                    if !arity_compatible(wf, *tf) {
                        assert(fn_meet(wf, *tf, e, (dd - 4) as nat, true).0 is Err);
                        assert(ty_lub(wanted, t, e, (dd - 3) as nat).0 is Err);
                        assert(bound_lower(sb, t, e, (dd - 2) as nat).0 is Err);
                        assert(bound_merge(sb, ob, e, (dd - 1) as nat).0 is Err);
                        assert(fty_merge(FTy::T(wanted), o, e, dd).0 is Err);
                        assert(stack_take_one(s.0, FTy::T(wanted), e).0 is Err);
                        assert(stack_take_all(s.0, list_seq(g.from), e).0 is Err);
                    }
                },
                _ => {
                    assert(ty_lub(wanted, t, e, (dd - 3) as nat).0 is Err);
                    assert(bound_lower(sb, t, e, (dd - 2) as nat).0 is Err);
                    assert(bound_merge(sb, ob, e, (dd - 1) as nat).0 is Err);
                    assert(fty_merge(FTy::T(wanted), o, e, dd).0 is Err);
                    assert(stack_take_one(s.0, FTy::T(wanted), e).0 is Err);
                    assert(stack_take_all(s.0, list_seq(g.from), e).0 is Err);
                },
            }
        } else {
            assert(stack_take_all(s.0, list_seq(g.from), e).0 is Err);
        }
    }
}

// ----------------------------------------------------------------------
// Which stack value each input takes
// ----------------------------------------------------------------------

proof fn lemma_take_all_matches(s: TyList, ts: Seq<FTy>, m: Map<Gen, Binding>)
    ensures
        ({
            let before = stack_seq(s);
            let k = ts.len();
            stack_take_all(s, ts, m).0 is Ok ==> k <= before.len() && forall|j: int|
                0 <= j < k && (#[trigger] ts[j] matches FTy::T(x) && !(x is F)) ==> before[before.len()
                    - k + j] == ts[j]->T_0
        }),
    decreases ts.len(),
{
    let before = stack_seq(s);
    let k = ts.len();
    if k > 0 {
        let (r, s1, m1) = stack_take_one(s, ts.last(), m);
        lemma_take_all_removes_top(s, ts, m);
        if let TyList::Cons(t, rest) = s {
            if r is Ok {
                lemma_take_all_matches(s1, ts.drop_last(), m1);
                assert(before == stack_seq(*rest).push(t));
                if stack_take_all(s, ts, m).0 is Ok {
                    assert forall|j: int|
                        0 <= j < k && (#[trigger] ts[j] matches FTy::T(x) && !(x is F)) implies before[before.len()
                            - k + j] == ts[j]->T_0 by {
                        if j < k - 1 {
                            assert(ts.drop_last()[j] == ts[j]);
                            assert(before[before.len() - k + j] == stack_seq(*rest)[stack_seq(
                                *rest,
                            ).len() - (k - 1) + j]);
                        } else {
                            let x = ts[j]->T_0;
                            let d = MAX_DEPTH as nat;
                            let sb = Bound { upper: None, lower: Some(x) };
                            let ob = Bound { upper: None, lower: Some(t) };
                            if x != t {
                                assert(ty_lub(x, t, m, (d - 3) as nat).0 is Err);
                                assert(bound_lower(sb, t, m, (d - 2) as nat).0 is Err);
                                assert(bound_merge(sb, ob, m, (d - 1) as nat).0 is Err);
                                assert(fty_merge(ts.last(), FTy::B(ob), m, d).0 is Err);
                            }
                        }
                    }
                }
            }
        }
    }
}

/// Applying a function to the program's stack matches its inputs against the
/// top values in order, the last input against the top: an input of a type
/// that is not a function type is accepted only where the value in its place
/// has exactly that type.
pub proof fn law_apply_takes_inputs_in_order(s: Stack, f: Function)
    ensures
        ({
            let (r, _) = s.apply_spec(f);
            let before = stack_seq(s.0);
            let ins = list_seq(f.from);
            let k = ins.len();
            r is Ok ==> k <= before.len() && forall|j: int|
                0 <= j < k && (#[trigger] ins[j] matches FTy::T(x) && !(x is F)) ==> before[before.len()
                    - k + j] == ins[j]->T_0
        }),
{
    lemma_take_all_matches(s.0, list_seq(f.from), Map::empty());
}

// ----------------------------------------------------------------------
// What each item does to the program's stack and store
// ----------------------------------------------------------------------

/// An integer literal pushes one `Int` on top of the stack and changes
/// nothing else.
pub proof fn law_int_pushes_int(lit: String, s: Stack, store: Store, next: Gen)
    ensures
        mod_stack_spec(StackMod::Int(lit), s, store, next) == (
            Ok::<(), TypeError>(()),
            Stack(TyList::Cons(Ty::Int, Box::new(s.0))),
            store,
            next,
        ),
{
    let e = Map::<Gen, Binding>::empty();
    let f = pushes(Ty::Int);
    assert(list_seq(f.from) =~= Seq::<FTy>::empty());
    assert(list_seq(f.to) =~= seq![FTy::T(Ty::Int)]);
    assert(fty_rg(FTy::T(Ty::Int), e, MAX_DEPTH as nat) == Ok::<FTy, TypeError>(FTy::T(Ty::Int)));
    assert(stack_push_outputs(
        TyList::Cons(Ty::Int, Box::new(s.0)),
        list_seq(f.to),
        1,
        e,
    ) == (Ok::<(), TypeError>(()), TyList::Cons(Ty::Int, Box::new(s.0))));
}

/// Whether the top of the stack is a function type.
pub open spec fn top_is_function(l: TyList) -> bool {
    l matches TyList::Cons(Ty::F(_), _)
}

/// Naming takes the function on top of the stack off it and stores it under
/// the name, with no parameters; every other name keeps its entry. Where the
/// top is no function, naming is refused.
pub proof fn law_bind_stores_the_top_function(id: String, s: Stack, store: Store, next: Gen, n: Name)
    ensures
        ({
            let (r, s1, st1, n1) = mod_stack_spec(StackMod::Bind(id), s, store, next);
            &&& (r is Ok) == top_is_function(s.0)
            &&& r is Ok ==> (s.0 matches TyList::Cons(Ty::F(f), rest) && s1.0 == *rest && env_get(
                st1,
                n,
            ) == (if n == name_from(id@) {
                Some(Scheme { params: 0, body: *f })
            } else {
                env_get(store, n)
            }))
            &&& n1 == next
        }),
{
    if let TyList::Cons(Ty::F(f), rest) = s.0 {
        lemma_env_insert(store, name_from(id@), Scheme { params: 0, body: *f }, n);
    }
}

/// A name without entry in the store is refused, leaving everything as it
/// was; using or quoting a known name leaves the store as it was.
pub proof fn law_unknown_names_are_refused(id: String, s: Stack, store: Store, next: Gen)
    ensures
        env_get(store, name_from(id@)) is None ==> mod_stack_spec(StackMod::Id(id), s, store, next)
            == (Err::<(), TypeError>(TypeError::UnknownIdentifier), s, store, next)
            && mod_stack_spec(StackMod::Quote(id), s, store, next) == (
            Err::<(), TypeError>(TypeError::UnknownIdentifier),
            s,
            store,
            next,
        ),
        mod_stack_spec(StackMod::Id(id), s, store, next).2 == store,
        mod_stack_spec(StackMod::Quote(id), s, store, next).2 == store,
{
}

/// Quoting a known name pushes exactly one function type on the stack.
pub proof fn law_quote_pushes_one_function(id: String, s: Stack, store: Store, next: Gen)
    ensures
        ({
            let (r, s1, _, _) = mod_stack_spec(StackMod::Quote(id), s, store, next);
            r is Ok ==> (s1.0 matches TyList::Cons(Ty::F(_), rest) && *rest == s.0)
        }),
{
    if let Some(sc) = env_get(store, name_from(id@)) {
        if let Ok((f, n1)) = crate::builtins::instantiate_spec(sc, next) {
            let p = pushes(Ty::F(Box::new(f)));
            let e = Map::<Gen, Binding>::empty();
            assert(list_seq(p.from) =~= Seq::<FTy>::empty());
            assert(list_seq(p.to) =~= seq![FTy::T(Ty::F(Box::new(f)))]);
            let outs = list_seq(p.to);
            if let Ok(x) = fty_rg(outs[0], e, MAX_DEPTH as nat) {
                assert(x is T && x->T_0 is F);
                assert(stack_push_outputs(
                    TyList::Cons(x->T_0, Box::new(s.0)),
                    outs,
                    1,
                    e,
                ) == (Ok::<(), TypeError>(()), TyList::Cons(x->T_0, Box::new(s.0))));
            }
        }
    }
}

/// Application takes the function on top of the stack and applies it to the
/// rest of the stack; where the top is no function, it is refused.
pub proof fn law_apply_item_applies_the_top(s: Stack, store: Store, next: Gen)
    ensures
        ({
            let (r, s1, st1, n1) = mod_stack_spec(StackMod::Apply, s, store, next);
            &&& r is Ok ==> (s.0 matches TyList::Cons(Ty::F(f), rest) && Stack(*rest).apply_spec(
                *f,
            ).0 is Ok && Stack(*rest).apply_spec(*f).1 == s1)
            &&& !top_is_function(s.0) ==> r == Err::<(), TypeError>(
                TypeError::NotAFunction,
            )
            &&& st1 == store
            &&& n1 == next
        }),
{
    let (r, s1, st1, n1) = mod_stack_spec(StackMod::Apply, s, store, next);
    let (pr, ps) = s.pop_function_spec();
    assert(pr == stack_pop_function(s.0).0);
    if let TyList::Cons(t, rest) = s.0 {
        assert(ps == Stack(*rest));
        if let Ty::F(f) = t {
            assert(pr == Ok::<Function, TypeError>(*f));
            let (r2, s2) = Stack(*rest).apply_spec(*f);
            assert(r == r2 && s1 == s2);
        }
    }
}

// ----------------------------------------------------------------------
// The text helpers of the compiler
// ----------------------------------------------------------------------

proof fn lemma_digit_value(d: nat)
    requires
        d < 10,
    ensures
        is_digit(digit_spec(d)),
        (digit_spec(d) as nat) - ('0' as nat) == d,
{
}

/// A number written in decimal reads back as that number: the text is made of
/// digits, has no leading zero (but for zero itself), and its value is `n`.
pub proof fn law_decimal_reads_back(n: nat)
    ensures
        digits_value(decimal_spec(n)) == n,
        forall|i: int| 0 <= i < decimal_spec(n).len() ==> is_digit(#[trigger] decimal_spec(n)[i]),
        decimal_spec(n).len() > 0,
        decimal_spec(n)[0] == '0' ==> n == 0,
    decreases n,
{
    if n < 10 {
        lemma_digit_value(n);
        assert(seq![digit_spec(n)].drop_last() =~= Seq::<char>::empty());
        assert(digits_value(Seq::<char>::empty()) == 0);
    } else {
        assert(n == (n / 10) * 10 + n % 10) by (nonlinear_arith);
        law_decimal_reads_back(n / 10);
        lemma_digit_value(n % 10);
        let d = decimal_spec(n);
        let h = decimal_spec(n / 10);
        assert(d.drop_last() =~= h);
        assert(d.last() == digit_spec(n % 10));
        assert(d[0] == h[0]);
        assert forall|i: int| 0 <= i < d.len() implies is_digit(#[trigger] d[i]) by {
            if i < h.len() {
                assert(d[i] == h[i]);
            }
        }
    }
}

/// Indenting works character by character: the indentation of two texts one
/// after the other is the indentation of the first followed by that of the
/// second.
pub proof fn law_indent_splits(a: Seq<char>, b: Seq<char>)
    ensures
        indent_spec(a + b) == indent_spec(a) + indent_spec(b),
    decreases b.len(),
{
    if b.len() == 0 {
        assert(a + b =~= a);
        assert(indent_spec(a) + indent_spec(b) =~= indent_spec(a));
    } else {
        law_indent_splits(a, b.drop_last());
        assert((a + b).drop_last() =~= a + b.drop_last());
        assert((a + b).last() == b.last());
        let t = if b.last() == '\n' {
            seq!['\n', '\t']
        } else {
            seq![b.last()]
        };
        assert(indent_spec(a) + indent_spec(b.drop_last()) + t =~= indent_spec(a) + (indent_spec(
            b.drop_last(),
        ) + t));
    }
}

/// Indenting a single character: a line break gains a tab after it, and every
/// other character stays as it is.
pub proof fn law_indent_one(c: char)
    ensures
        indent_spec(seq![c]) == (if c == '\n' {
            seq!['\n', '\t']
        } else {
            seq![c]
        }),
{
    assert(seq![c].drop_last() =~= Seq::<char>::empty());
    assert(indent_spec(Seq::<char>::empty()) == Seq::<char>::empty());
    assert(Seq::<char>::empty() + seq!['\n', '\t'] =~= seq!['\n', '\t']);
    assert(Seq::<char>::empty() + seq![c] =~= seq![c]);
}

/// Joining two non-empty lists of lines is joining each and putting the
/// separator between them.
pub proof fn law_join_splits(a: Seq<Seq<char>>, b: Seq<Seq<char>>, sep: Seq<char>)
    requires
        a.len() > 0,
        b.len() > 0,
    ensures
        join_spec(a + b, sep) == join_spec(a, sep) + sep + join_spec(b, sep),
    decreases b.len(),
{
    if b.len() == 1 {
        assert((a + b).drop_last() =~= a);
        assert((a + b).last() == b[0]);
    } else {
        law_join_splits(a, b.drop_last(), sep);
        assert((a + b).drop_last() =~= a + b.drop_last());
        assert((a + b).last() == b.last());
        assert(join_spec(a, sep) + sep + join_spec(b.drop_last(), sep) + sep + b.last()
            =~= join_spec(a, sep) + sep + (join_spec(b.drop_last(), sep) + sep + b.last()));
    }
}

/// Joining one line gives that line.
pub proof fn law_join_one(x: Seq<char>, sep: Seq<char>)
    ensures
        join_spec(seq![x], sep) == x,
{
}

// ----------------------------------------------------------------------
// The code compiled for each item
// ----------------------------------------------------------------------

/// The line of each straight item: a literal is pushed, an application calls
/// the function on top, an arity annotation emits nothing, a name emits its
/// code and a quotation wraps that code in a function that is pushed; a name
/// the store lacks is reported.
pub proof fn law_item_lines(store: Env<Seq<char>>, lit: String, id: String, a: u32, b: u32)
    ensures
        straight_lines(store, seq![AstNode::S(StackMod::Int(lit))]) == Ok::<
            Seq<Seq<char>>,
            Seq<char>,
        >(seq!["stack.append("@ + lit@ + ")"@]),
        straight_lines(store, seq![AstNode::S(StackMod::Apply)]) == Ok::<Seq<Seq<char>>, Seq<char>>(
            seq!["stack.pop()()"@],
        ),
        straight_lines(store, seq![AstNode::S(StackMod::Arity(a, b))]) == Ok::<
            Seq<Seq<char>>,
            Seq<char>,
        >(Seq::empty()),
        env_get(store, name_from(id@)) matches Some(c) ==> straight_lines(
            store,
            seq![AstNode::S(StackMod::Id(id))],
        ) == Ok::<Seq<Seq<char>>, Seq<char>>(seq![c]) && straight_lines(
            store,
            seq![AstNode::S(StackMod::Quote(id))],
        ) == Ok::<Seq<Seq<char>>, Seq<char>>(
            seq!["def quote():\n\t"@ + indent_spec(c) + "\nstack.append(quote)"@],
        ),
        env_get(store, name_from(id@)) is None ==> straight_lines(
            store,
            seq![AstNode::S(StackMod::Id(id))],
        ) == Err::<Seq<Seq<char>>, Seq<char>>(
            "did not find identifier "@ + id@ + " in context"@,
        ) && straight_lines(store, seq![AstNode::S(StackMod::Quote(id))]) == Err::<
            Seq<Seq<char>>,
            Seq<char>,
        >("did not find identifier "@ + id@ + " in context"@),
{
    reveal_strlit("stack.append(");
    reveal_strlit(")");
    reveal_strlit("quote");
    reveal_strlit("\n");
    reveal_strlit("\nstack.append(quote)");
    let empty = Seq::<AstNode>::empty();
    assert(straight_lines(store, empty) == Ok::<Seq<Seq<char>>, Seq<char>>(Seq::empty()));
    let nodes = seq![
        AstNode::S(StackMod::Int(lit)),
        AstNode::S(StackMod::Apply),
        AstNode::S(StackMod::Arity(a, b)),
        AstNode::S(StackMod::Id(id)),
        AstNode::S(StackMod::Quote(id)),
    ];
    assert forall|i: int| 0 <= i < 5 implies seq![#[trigger] nodes[i]].drop_first() =~= empty by {}
    assert(seq![nodes[0]] == seq![AstNode::S(StackMod::Int(lit))]);
    assert(seq![nodes[1]] == seq![AstNode::S(StackMod::Apply)]);
    assert(seq![nodes[2]] == seq![AstNode::S(StackMod::Arity(a, b))]);
    assert(seq![nodes[3]] == seq![AstNode::S(StackMod::Id(id))]);
    assert(seq![nodes[4]] == seq![AstNode::S(StackMod::Quote(id))]);
    if let Some(c) = env_get(store, name_from(id@)) {
        assert("def quote():\n\t"@ + indent_spec(c) + "\n"@ + crate::compile::append_spec("quote"@)
            =~= "def quote():\n\t"@ + indent_spec(c) + "\nstack.append(quote)"@);
    }
    assert(Seq::<Seq<char>>::empty().push("stack.append("@ + lit@ + ")"@) + Seq::<Seq<char>>::empty()
        =~= seq!["stack.append("@ + lit@ + ")"@]);
}

/// Compiling `a` and then `b` is compiling `a + b`.
pub proof fn lemma_compile_from_concat(st: CState, a: Seq<AstNode>, b: Seq<AstNode>)
    ensures
        compile_from(st, a + b, 0) == match compile_from(st, a, 0) {
            Ok(st1) => compile_from(st1, b, 0),
            Err(e) => Err(e),
        },
    decreases a.len(),
{
    if a.len() == 0 {
        assert(a + b =~= b);
    } else {
        assert((a + b)[0] == a[0]);
        assert((a + b).skip(1) =~= a.skip(1) + b);
        if let Ok(st1) = compile_step(st, a[0]) {
            lemma_compile_from_skip(st1, a + b, 1);
            lemma_compile_from_skip(st1, a, 1);
            lemma_compile_from_concat(st1, a.skip(1), b);
        }
    }
}

/// A name just bound is called through the variable that holds it: naming `x`
/// and then using `x` emits the line that stores the top of the stack in a
/// variable numbered by the names bound so far, then the line that calls it.
pub proof fn law_bound_name_is_called(st: CState, x: String)
    ensures
        ({
            let v = "_"@ + decimal_spec(st.count) + "_"@ + x@;
            let r = compile_from(
                st,
                seq![AstNode::S(StackMod::Bind(x)), AstNode::S(StackMod::Id(x))],
                0,
            );
            r matches Ok(st2) && st2.code == st.code + seq![v + " = stack.pop()"@, v + "()"@]
                && st2.count == st.count + 1 && st2.frames == st.frames
        }),
{
    let v = "_"@ + decimal_spec(st.count) + "_"@ + x@;
    let nodes = seq![AstNode::S(StackMod::Bind(x)), AstNode::S(StackMod::Id(x))];
    let st1 = compile_step(st, nodes[0])->Ok_0;
    lemma_env_insert(st.store, name_from(x@), v + "()"@, name_from(x@));
    let st2 = compile_step(st1, nodes[1])->Ok_0;
    assert(compile_from(st2, nodes, 2) == Ok::<CState, Seq<char>>(st2));
    assert(compile_from(st1, nodes, 1) == Ok::<CState, Seq<char>>(st2));
    assert(st.code.push(v + " = stack.pop()"@).push(v + "()"@) =~= st.code + seq![
        v + " = stack.pop()"@,
        v + "()"@,
    ]);
}

/// A definition of straight items compiles to a function `fn` whose body is
/// the items' lines, indented, and which is then pushed.
pub proof fn law_definition_code(st: CState, body: Seq<AstNode>)
    requires
        forall|j: int| 0 <= j < body.len() ==> straight(#[trigger] body[j]),
    ensures
        compile_from(st, seq![AstNode::OpenFunc] + body + seq![AstNode::CloseFunc], 0) == match straight_lines(
            st.store,
            body,
        ) {
            Ok(l) => Ok::<CState, Seq<char>>(
                CState {
                    code: st.code + seq![
                        "def fn():"@,
                        "\t"@ + indent_spec(join_spec(l, "\n"@)),
                        "stack.append(fn)"@,
                    ],
                    ..st
                },
            ),
            Err(e) => Err(e),
        },
{
    reveal_strlit("stack.append(");
    reveal_strlit(")");
    reveal_strlit("fn");
    reveal_strlit("stack.append(fn)");
    let open = seq![AstNode::OpenFunc];
    let close = seq![AstNode::CloseFunc];
    lemma_compile_from_concat(st, open + body, close);
    lemma_compile_from_concat(st, open, body);
    let st1 = CState { frames: st.frames.push(st.code.push("def fn():"@)), code: Seq::empty(), ..st };
    assert(open.drop_first() =~= Seq::<AstNode>::empty());
    assert(compile_from(st, open, 0) == Ok::<CState, Seq<char>>(st1)) by {
        lemma_compile_from_skip(st1, open, 1);
        assert(open.skip(1) =~= Seq::<AstNode>::empty());
    }
    lemma_straight_compile(st1, body);
    if let Ok(l) = straight_lines(st.store, body) {
        let st2 = CState { code: st1.code + l, ..st1 };
        assert(st1.code + l =~= l);
        lemma_compile_from_skip(compile_step(st2, AstNode::CloseFunc)->Ok_0, close, 1);
        assert(close.skip(1) =~= Seq::<AstNode>::empty());
        assert(st2.frames.drop_last() =~= st.frames);
        assert(crate::compile::append_spec("fn"@) =~= "stack.append(fn)"@);
        assert(st.code.push("def fn():"@).push("\t"@ + indent_spec(join_spec(l, "\n"@))).push(
            "stack.append(fn)"@,
        ) =~= st.code + seq![
            "def fn():"@,
            "\t"@ + indent_spec(join_spec(l, "\n"@)),
            "stack.append(fn)"@,
        ]);
    }
}

// ----------------------------------------------------------------------
// The reader reads back what is written
// ----------------------------------------------------------------------

/// Whether an item can be written down: names are names, numbers are runs of
/// digits, a quotation quotes `'` itself or a run of name characters.
pub open spec fn token_ok(t: Token) -> bool {
    match t {
        Token::Id(n) => is_name(n),
        Token::Int(d) => d.len() > 0 && forall|i: int| 0 <= i < d.len() ==> is_digit(#[trigger] d[i]),
        Token::Quote(q) => q == "'"@ || (q.len() > 0 && forall|i: int|
            0 <= i < q.len() ==> is_name_char(#[trigger] q[i])),
        Token::Bind(n) => n.len() > 0 && forall|i: int|
            0 <= i < n.len() ==> is_name_char(#[trigger] n[i]),
        _ => true,
    }
}

/// How an item is written.
pub open spec fn render_token(t: Token) -> Seq<char> {
    match t {
        Token::Open => seq!['['],
        Token::Close => seq![']'],
        Token::Apply => seq!['!'],
        Token::Id(n) => n,
        Token::Int(d) => d,
        Token::Quote(q) => if q == "'"@ {
            seq!['\'']
        } else {
            seq!['\''] + q
        },
        Token::Bind(n) => seq!['$'] + n,
        Token::Arity(a, b) => seq!['('] + decimal_spec(a as nat) + seq![' '] + decimal_spec(
            b as nat,
        ) + seq![')'],
    }
}

/// The items written one after the other, each followed by a space.
pub open spec fn render(toks: Seq<Token>) -> Seq<char>
    decreases toks.len(),
{
    if toks.len() == 0 {
        Seq::empty()
    } else {
        render(toks.drop_last()) + render_token(toks.last()) + seq![' ']
    }
}

proof fn lemma_digits_end_run(s: Seq<char>, i: int, k: int)
    requires
        0 <= i <= k <= s.len(),
        forall|j: int| i <= j < k ==> is_digit(#[trigger] s[j]),
        k == s.len() || !is_digit(s[k]),
    ensures
        digits_end(s, i) == k,
    decreases k - i,
{
    if i < k {
        lemma_digits_end_run(s, i + 1, k);
    }
}

/// Reading one written item, and the space after it.
proof fn lemma_scan_token(s: Seq<char>, i: int, d: nat, acc: Seq<Token>, t: Token)
    requires
        token_ok(t),
        0 <= i,
        i + render_token(t).len() + 1 <= s.len(),
        forall|j: int| 0 <= j < render_token(t).len() ==> s[i + j] == #[trigger] render_token(t)[j],
        s[i + render_token(t).len()] == ' ',
        t is Close ==> d > 0,
    ensures
        scan(s, i, d, acc, false) == scan(
            s,
            i + render_token(t).len() + 1,
            match t {
                Token::Open => d + 1,
                Token::Close => (d - 1) as nat,
                _ => d,
            },
            acc.push(t),
            false,
        ),
{
    reveal_strlit("'");
    let w = render_token(t);
    let e = i + w.len();
    let nd: nat = match t {
        Token::Open => d + 1,
        Token::Close => (d - 1) as nat,
        _ => d,
    };
    crate::ast::lemma_runs_advance(s, i);
    crate::ast::lemma_runs_advance(s, i + 1);
    assert(scan(s, e, nd, acc.push(t), false) == scan(s, e + 1, nd, acc.push(t), false));
    match t {
        Token::Open => {
            assert(s[i] == w[0]);
        },
        Token::Close => {
            assert(s[i] == w[0]);
        },
        Token::Apply => {
            assert(s[i] == w[0]);
        },
        Token::Id(n) => {
            assert(s[i] == n[0]);
            assert forall|j: int| i <= j < e implies is_name_char(#[trigger] s[j]) by {
                assert(s[i + (j - i)] == n[j - i]);
            }
            lemma_name_end_run(s, i, e);
            assert(s.subrange(i, e) =~= n);
        },
        Token::Int(dg) => {
            assert(s[i] == dg[0]);
            assert forall|j: int| i <= j < e implies is_digit(#[trigger] s[j]) by {
                assert(s[i + (j - i)] == dg[j - i]);
            }
            lemma_digits_end_run(s, i, e);
            assert(s.subrange(i, e) =~= dg);
        },
        Token::Quote(q) => {
            assert(s[i] == w[0]);
            if q == "'"@ {
                crate::ast::lemma_runs_advance(s, i + 1);
                assert(name_end(s, i + 1) == i + 1);
            } else {
                assert forall|j: int| i + 1 <= j < e implies is_name_char(#[trigger] s[j]) by {
                    assert(s[i + (j - i)] == w[j - i]);
                    assert(w[j - i] == q[j - i - 1]);
                }
                lemma_name_end_run(s, i + 1, e);
                assert forall|j: int| 0 <= j < q.len() implies s.subrange(i + 1, e)[j] == q[j] by {
                    assert(s[i + (1 + j)] == w[1 + j]);
                }
                assert(s.subrange(i + 1, e) =~= q);
            }
        },
        Token::Bind(n) => {
            assert(s[i] == w[0]);
            assert forall|j: int| i + 1 <= j < e implies is_name_char(#[trigger] s[j]) by {
                assert(s[i + (j - i)] == w[j - i]);
                assert(w[j - i] == n[j - i - 1]);
            }
            lemma_name_end_run(s, i + 1, e);
            assert forall|j: int| 0 <= j < n.len() implies s.subrange(i + 1, e)[j] == n[j] by {
                assert(s[i + (1 + j)] == w[1 + j]);
            }
            assert(s.subrange(i + 1, e) =~= n);
        },
        Token::Arity(a, b) => {
            let da = decimal_spec(a as nat);
            let db = decimal_spec(b as nat);
            law_decimal_reads_back(a as nat);
            law_decimal_reads_back(b as nat);
            let a0 = i + 1;
            let a1 = a0 + da.len();
            let b0 = a1 + 1;
            let b1 = b0 + db.len();
            assert(s[i] == w[0]);
            assert(s[a0] == w[1]);
            assert(w[1] == da[0]);
            assert(s[a1] == w[a1 - i]);
            assert(s[a1] == ' ');
            assert(s[b0] == w[b0 - i]);
            assert(s[b0] == db[0]);
            assert(s[b1] == w[b1 - i]);
            assert(s[b1] == ')');
            assert(e == b1 + 1);
            assert forall|j: int| a0 <= j < a1 implies is_digit(#[trigger] s[j]) by {
                assert(s[i + (j - i)] == w[j - i]);
                assert(w[j - i] == da[j - a0]);
            }
            assert forall|j: int| b0 <= j < b1 implies is_digit(#[trigger] s[j]) by {
                assert(s[i + (j - i)] == w[j - i]);
                assert(w[j - i] == db[j - b0]);
            }
            assert(spaces_end(s, a0) == a0);
            lemma_digits_end_run(s, a0, a1);
            assert(spaces_end(s, a1 + 1) == a1 + 1);
            assert(spaces_end(s, a1) == b0);
            lemma_digits_end_run(s, b0, b1);
            assert(spaces_end(s, b1) == b1);
            assert forall|j: int| 0 <= j < da.len() implies s.subrange(a0, a1)[j] == da[j] by {
                assert(s[i + (a0 + j - i)] == w[a0 + j - i]);
            }
            assert(s.subrange(a0, a1) =~= da);
            assert forall|j: int| 0 <= j < db.len() implies s.subrange(b0, b1)[j] == db[j] by {
                assert(s[i + (b0 + j - i)] == w[b0 + j - i]);
            }
            assert(s.subrange(b0, b1) =~= db);
            assert(crate::ast::arity_spec(s, i) == Ok::<(Option<(u32, u32)>, int), crate::ast::ParseError>(
                (Some((a, b)), e),
            ));
        },
    }
}

proof fn lemma_render_prefix(toks: Seq<Token>, k: int)
    requires
        0 <= k <= toks.len(),
    ensures
        render(toks.take(k)).len() <= render(toks).len(),
        forall|j: int|
            0 <= j < render(toks.take(k)).len() ==> #[trigger] render(toks)[j] == render(
                toks.take(k),
            )[j],
    decreases toks.len(),
{
    if k == toks.len() {
        assert(toks.take(k) =~= toks);
    } else {
        let dl = toks.drop_last();
        lemma_render_prefix(dl, k);
        assert(dl.take(k) =~= toks.take(k));
        let r = render(toks);
        assert(r == render(dl) + render_token(toks.last()) + seq![' ']);
        assert forall|j: int| 0 <= j < render(toks.take(k)).len() implies #[trigger] r[j] == render(
            toks.take(k),
        )[j] by {
            assert(r[j] == render(dl)[j]);
        }
    }
}

proof fn lemma_scan_render(toks: Seq<Token>, k: int)
    requires
        tokens_balanced(toks),
        forall|i: int| 0 <= i < toks.len() ==> token_ok(#[trigger] toks[i]),
        0 <= k <= toks.len(),
        tok_depth(toks, k) >= 0,
    ensures
        scan(render(toks), render(toks.take(k)).len() as int, tok_depth(toks, k) as nat, toks.take(k), false)
            == Ok::<Seq<Token>, crate::ast::ParseError>(toks),
    decreases toks.len() - k,
{
    let s = render(toks);
    if k == toks.len() {
        assert(toks.take(k) =~= toks);
    } else {
        let p = render(toks.take(k)).len() as int;
        let t = toks[k];
        let w = render_token(t);
        assert(toks.take(k + 1).drop_last() =~= toks.take(k));
        assert(toks.take(k + 1).last() == t);
        let pre = render(toks.take(k + 1));
        assert(pre == render(toks.take(k)) + w + seq![' ']);
        lemma_render_prefix(toks, k + 1);
        assert forall|j: int| 0 <= j < w.len() implies s[p + j] == #[trigger] w[j] by {
            assert(s[p + j] == pre[p + j]);
        }
        assert(s[p + w.len()] == pre[p + w.len()]);
        assert(tok_depth(toks, k + 1) == tok_depth(toks, k) + match t {
            Token::Open => 1int,
            Token::Close => -1int,
            _ => 0int,
        });
        if t is Close {
            assert(tok_depth(toks, k) > 0);
        }
        lemma_scan_token(s, p, tok_depth(toks, k) as nat, toks.take(k), t);
        assert(toks.take(k).push(t) =~= toks.take(k + 1));
        lemma_scan_render(toks, k + 1);
    }
}

/// The reader reads back what is written: writing any properly nested
/// sequence of well-formed items, each followed by a space, and reading the
/// text gives the same items.
pub proof fn law_reader_reads_back(toks: Seq<Token>)
    requires
        tokens_balanced(toks),
        forall|i: int| 0 <= i < toks.len() ==> token_ok(#[trigger] toks[i]),
    ensures
        parse_spec(render(toks)) == Ok::<Seq<Token>, crate::ast::ParseError>(toks),
{
    assert(toks.take(0) =~= Seq::<Token>::empty());
    assert(render(Seq::<Token>::empty()) == Seq::<char>::empty());
    lemma_scan_render(toks, 0);
}

// ----------------------------------------------------------------------
// Merging an unbound variable
// ----------------------------------------------------------------------

/// Merging an unbound variable with a concrete type that does not mention it
/// binds the variable to that type as its lower end and changes nothing else;
/// resolving the variable afterwards gives that bound. Where the type
/// mentions the variable, the merge is refused and the bindings stay as they
/// were.
pub proof fn law_free_variable_takes_the_type(g: Gen, t: Ty, m: Map<Gen, Binding>, d: nat)
    requires
        !m.contains_key(g),
        d >= 1,
        m.dom().finite(),
    ensures
        !ty_contains(t, g) ==> {
            let b = Bound { upper: None, lower: Some(t) };
            &&& fty_merge(FTy::Gen(g), FTy::T(t), m, d) == (
                Ok::<FTy, TypeError>(FTy::Gen(g)),
                m.insert(g, Binding::Bounded(b)),
            )
            &&& resolve_spec(g, m.insert(g, Binding::Bounded(b))) == Ok::<FTy, TypeError>(
                FTy::B(b),
            )
        },
        ty_contains(t, g) ==> fty_merge(FTy::Gen(g), FTy::T(t), m, d) == (
            Err::<FTy, TypeError>(
                TypeError::ContainsItself(g, Binding::Bounded(Bound { upper: None, lower: Some(t) })),
            ),
            m,
        ),
{
    let b = Bound { upper: None, lower: Some(t) };
    assert(crate::types::bound_contains(b, g) == ty_contains(t, g));
    let m2 = m.insert(g, Binding::Bounded(b));
    assert(m2.len() >= 1) by {
        assert(m2.dom().contains(g));
        vstd::set_lib::lemma_set_empty_equivalency_len(m2.dom());
    }
}

/// Merging two distinct unbound variables makes the first an alias of the
/// second: resolving the first afterwards gives the second.
pub proof fn law_free_variables_alias(g: Gen, h: Gen, m: Map<Gen, Binding>, d: nat)
    requires
        !m.contains_key(g),
        !m.contains_key(h),
        g != h,
        d >= 1,
        m.dom().finite(),
    ensures
        fty_merge(FTy::Gen(g), FTy::Gen(h), m, d) == (
            Ok::<FTy, TypeError>(FTy::Gen(g)),
            m.insert(g, Binding::Alias(h)),
        ),
        resolve_spec(g, m.insert(g, Binding::Alias(h))) == Ok::<FTy, TypeError>(FTy::Gen(h)),
{
    let m2 = m.insert(g, Binding::Alias(h));
    assert(m2.dom().contains(g));
    assert(m2.len() >= 1) by {
        vstd::set_lib::lemma_set_empty_equivalency_len(m2.dom());
    }
    assert(!m2.contains_key(h));
    let n = m2.len();
    assert(crate::bindings::resolve_chain(g, h, m2, (n - 1) as nat) == Ok::<FTy, TypeError>(FTy::Gen(h)));
}

/// A slot bounded above by a type that is not a function type accepts a value
/// of exactly that type, under any bindings, and the merged slot is bounded on
/// both sides by it.
pub proof fn law_upper_bound_accepts_its_type(u: Ty, m: Map<Gen, Binding>, d: nat)
    requires
        !(u is F),
        d >= 5,
    ensures
        fty_merge(FTy::B(Bound { upper: Some(u), lower: None }), FTy::T(u), m, d) == (
            Ok::<FTy, TypeError>(FTy::B(Bound { upper: Some(u), lower: Some(u) })),
            m,
        ),
{
    let both = Bound { upper: Some(u), lower: Some(u) };
    let up = Bound { upper: Some(u), lower: None };
    let low = Bound { upper: None, lower: Some(u) };
    assert(bound_sound(both, m, (d - 3) as nat) == (Ok::<(), TypeError>(()), m));
    assert(bound_lower(up, u, m, (d - 2) as nat) == (Ok::<(), TypeError>(()), both, m));
    assert(bound_sound(both, m, (d - 2) as nat) == (Ok::<(), TypeError>(()), m));
    assert(bound_merge(up, low, m, (d - 1) as nat) == (Ok::<(), TypeError>(()), both, m));
}

} // verus!
