use crate::ast::{AstNode, StackMod};
use crate::builtins::{instantiate_spec, Scheme, Store};
use crate::env::{env_get, env_insert, name_from, Env, Name};
use crate::merge::{fty_merge, then_val};
use crate::resolve::{fty_rg, MAX_DEPTH};
use crate::types::{
    fty_as_ty, lemma_list_seq_injective, list_seq, Binding, Bound, FList, FTy, Function, Gen, GenBindings, Ty, TypeError,
};
use std::collections::HashMap;
use vstd::prelude::*;

verus! {

broadcast use vstd::std_specs::hash::group_hash_axioms;

type M = Map<Gen, Binding>;

/// Something on which function types can be applied: the stack of a running
/// program, or a function definition under construction.
pub trait StackLike: Sized {
    spec fn apply_spec(self, function: Function) -> (Result<(), TypeError>, Self);

    spec fn pop_function_spec(self) -> (Result<Function, TypeError>, Self);

    spec fn empty_spec() -> Self;

    /// The empty state.
    fn empty() -> (r: Self)
        ensures
            r == Self::empty_spec(),
    ;

    /// Takes the inputs of `function` and leaves its outputs.
    fn apply(&mut self, function: Function) -> (r: Result<(), TypeError>)
        ensures
            (r, *final(self)) == old(self).apply_spec(function),
    ;

    /// Takes a function from the top.
    fn pop_function(&mut self) -> (r: Result<Function, TypeError>)
        ensures
            (r, *final(self)) == old(self).pop_function_spec(),
    ;
}

// ----------------------------------------------------------------------
// The stack of a running program
// ----------------------------------------------------------------------

/// A list of types, top of the stack first.
#[derive(Debug, PartialEq, Eq)]
pub enum TyList {
    Nil,
    Cons(Ty, Box<TyList>),
}

/// The stack of concrete types of a running program.
#[derive(Debug, PartialEq, Eq)]
pub struct Stack(pub TyList);

/// The types on a stack, bottom first.
pub open spec fn stack_seq(l: TyList) -> Seq<Ty>
    decreases l,
{
    match l {
        TyList::Nil => Seq::empty(),
        TyList::Cons(t, rest) => stack_seq(*rest).push(t),
    }
}

/// Taking one input `fty`: the top value must fit it.
pub open spec fn stack_take_one(s: TyList, fty: FTy, m: M) -> (Result<(), TypeError>, TyList, M) {
    match s {
        TyList::Nil => (Err(TypeError::EmptyStack), s, m),
        TyList::Cons(t, rest) => {
            let (r, m1) = fty_merge(
                fty,
                FTy::B(Bound { upper: None, lower: Some(t) }),
                m,
                MAX_DEPTH as nat,
            );
            (then_val(r, ()), *rest, m1)
        },
    }
}

/// Taking the inputs `ts`, the last one from the top.
pub open spec fn stack_take_all(s: TyList, ts: Seq<FTy>, m: M) -> (Result<(), TypeError>, TyList, M)
    decreases ts.len(),
{
    if ts.len() == 0 {
        (Ok(()), s, m)
    } else {
        let (r, s1, m1) = stack_take_one(s, ts.last(), m);
        match r {
            Err(e) => (Err(e), s1, m1),
            Ok(_) => stack_take_all(s1, ts.drop_last(), m1),
        }
    }
}

/// Pushing the outputs `outs[i..]`, each with the bindings substituted.
pub open spec fn stack_push_outputs(s: TyList, outs: Seq<FTy>, i: int, m: M) -> (Result<
    (),
    TypeError,
>, TyList)
    decreases outs.len() - i,
{
    if i >= outs.len() || i < 0 {
        (Ok(()), s)
    } else {
        match fty_rg(outs[i], m, MAX_DEPTH as nat) {
            Err(e) => (Err(e), s),
            Ok(x) => match fty_as_ty(x) {
                Err(e) => (Err(e), s),
                Ok(t) => stack_push_outputs(TyList::Cons(t, Box::new(s)), outs, i + 1, m),
            },
        }
    }
}

pub open spec fn stack_apply(s: TyList, f: Function) -> (Result<(), TypeError>, TyList) {
    let (r, s1, m1) = stack_take_all(s, list_seq(f.from), Map::empty());
    match r {
        Err(e) => (Err(e), s1),
        Ok(_) => stack_push_outputs(s1, list_seq(f.to), 0, m1),
    }
}

pub open spec fn stack_pop_function(s: TyList) -> (Result<Function, TypeError>, TyList) {
    match s {
        TyList::Nil => (Err(TypeError::NotAFunction), s),
        TyList::Cons(t, rest) => match t {
            Ty::F(f) => (Ok(*f), *rest),
            _ => (Err(TypeError::NotAFunction), *rest),
        },
    }
}

impl Stack {
    /// The stack holding copies of `tys`, the last one on top.
    pub fn new(tys: &[Ty]) -> (r: Stack)
        ensures
            stack_seq(r.0) == tys@,
    {
        let mut l = TyList::Nil;
        let mut i: usize = 0;
        while i < tys.len()
            invariant
                i <= tys@.len(),
                stack_seq(l) == tys@.subrange(0, i as int),
            decreases tys@.len() - i,
        {
            l = TyList::Cons(tys[i].copy(), Box::new(l));
            i = i + 1;
            assert(stack_seq(l) =~= tys@.subrange(0, i as int));
        }
        assert(tys@.subrange(0, tys@.len() as int) =~= tys@);
        Stack(l)
    }

    fn push(&mut self, ty: Ty)
        ensures
            final(self).0 == TyList::Cons(ty, Box::new(old(self).0)),
    {
        let mut rest = TyList::Nil;
        std::mem::swap(&mut rest, &mut self.0);
        self.0 = TyList::Cons(ty, Box::new(rest));
    }

    /// Takes the top type, if there is one.
    pub fn pop(&mut self) -> (r: Option<Ty>)
        ensures
            match old(self).0 {
                TyList::Nil => r is None && final(self).0 == TyList::Nil,
                TyList::Cons(t, rest) => r == Some(t) && final(self).0 == *rest,
            },
    {
        let mut l = TyList::Nil;
        std::mem::swap(&mut l, &mut self.0);
        match l {
            TyList::Nil => None,
            TyList::Cons(t, rest) => {
                self.0 = *rest;
                Some(t)
            },
        }
    }

    /// A vector of copies of the types, bottom first.
    pub fn to_vec(&self) -> (r: Vec<Ty>)
        ensures
            r@ == stack_seq(self.0),
    {
        tylist_to_vec(&self.0)
    }

    fn take_one(&mut self, fty: FTy, bindings: &mut GenBindings) -> (r: Result<(), TypeError>)
        ensures
            (r, final(self).0, final(bindings)@) == stack_take_one(
                old(self).0,
                fty,
                old(bindings)@,
            ),
    {
        let stack_ty = match self.pop() {
            Some(t) => t,
            None => return Err(TypeError::EmptyStack),
        };
        match fty.merge(FTy::B(Bound::from_lower(stack_ty)), bindings) {
            Err(e) => Err(e),
            Ok(_) => Ok(()),
        }
    }
    fn take_all(&mut self, types: &[FTy], bindings: &mut GenBindings) -> (r: Result<
        (),
        TypeError,
    >)
        ensures
            (r, final(self).0, final(bindings)@) == stack_take_all(
                old(self).0,
                types@,
                old(bindings)@,
            ),
    {
        let ghost target = stack_take_all(old(self).0, types@, old(bindings)@);
        let mut j: usize = types.len();
        assert(types@.take(j as int) =~= types@);
        while j > 0
            invariant
                j <= types@.len(),
                target == stack_take_all(old(self).0, types@, old(bindings)@),
                stack_take_all(self.0, types@.take(j as int), bindings@) == target,
            decreases j,
        {
            assert(types@.take(j as int).drop_last() =~= types@.take(j - 1));
            assert(types@.take(j as int).last() == types@[j - 1]);
            let x = types[j - 1].copy();
            match self.take_one(x, bindings) {
                Err(e) => return Err(e),
                Ok(_) => {},
            }
            j = j - 1;
        }
        Ok(())
    }
}

fn tylist_to_vec(l: &TyList) -> (r: Vec<Ty>)
    ensures
        r@ == stack_seq(*l),
    decreases l,
{
    match l {
        TyList::Nil => Vec::new(),
        TyList::Cons(t, rest) => {
            let mut v = tylist_to_vec(rest);
            v.push(t.copy());
            v
        },
    }
}

impl StackLike for Stack {
    open spec fn apply_spec(self, function: Function) -> (Result<(), TypeError>, Stack) {
        let (r, l) = stack_apply(self.0, function);
        (r, Stack(l))
    }

    open spec fn pop_function_spec(self) -> (Result<Function, TypeError>, Stack) {
        let (r, l) = stack_pop_function(self.0);
        (r, Stack(l))
    }

    open spec fn empty_spec() -> Stack {
        Stack(TyList::Nil)
    }

    fn empty() -> (r: Stack) {
        Stack(TyList::Nil)
    }

    fn apply(&mut self, function: Function) -> (r: Result<(), TypeError>) {
        let ghost target = stack_apply(old(self).0, function);
        let mut bindings: GenBindings = HashMap::new();
        let from = function.from();
        assert(bindings@ == Map::<Gen, Binding>::empty());
        match self.take_all(from.as_slice(), &mut bindings) {
            Err(e) => return Err(e),
            Ok(_) => {},
        }
        let to = function.to();
        let mut i: usize = 0;
        while i < to.len()
            invariant
                target == stack_apply(old(self).0, function),
                to@ == list_seq(function.to),
                i <= to@.len(),
                stack_push_outputs(self.0, to@, i as int, bindings@) == target,
            decreases to@.len() - i,
        {
            let x = match to[i].copy().resolve_gen(&bindings) {
                Ok(x) => x,
                Err(e) => return Err(e),
            };
            let t = match x.as_ty() {
                Ok(t) => t,
                Err(e) => return Err(e),
            };
            self.push(t);
            i = i + 1;
        }
        Ok(())
    }

    fn pop_function(&mut self) -> (r: Result<Function, TypeError>) {
        match self.pop() {
            Some(Ty::F(f)) => Ok(*f),
            _ => Err(TypeError::NotAFunction),
        }
    }
}

// ----------------------------------------------------------------------
// A function definition under construction
// ----------------------------------------------------------------------

/// A stack of slots inside a definition, top first.
#[derive(Debug, PartialEq, Eq)]
pub struct FDStack(pub FList);

/// One slot of a definition's stack after substitution: a variable is replaced
/// by what it resolves to; a bound it resolves to must have a lower end and no
/// upper end, and its ends are exchanged when `swap` holds.
pub open spec fn slot_replace(x: FTy, m: M, swap: bool) -> Result<FTy, TypeError> {
    match x {
        FTy::Gen(_) => match fty_rg(x, m, MAX_DEPTH as nat) {
            Err(e) => Err(e),
            Ok(FTy::B(b)) => if b.upper is Some {
                Err(TypeError::UpperBoundInDefinition)
            } else if b.lower is None {
                Err(TypeError::MissingLowerBound)
            } else if swap {
                Ok(FTy::B(Bound { upper: b.lower, lower: b.upper }))
            } else {
                Ok(FTy::B(b))
            },
            Ok(other) => Ok(other),
        },
        _ => Ok(x),
    }
}

/// Substituting every slot, the bottom one first; on an error the slots below
/// are already replaced.
pub open spec fn fd_replace(l: FList, m: M, swap: bool) -> (Result<(), TypeError>, FList)
    decreases l,
{
    match l {
        FList::Nil => (Ok(()), FList::Nil),
        FList::Cons(x, rest) => {
            let (r, nrest) = fd_replace(*rest, m, swap);
            match r {
                Err(e) => (Err(e), FList::Cons(x, Box::new(nrest))),
                Ok(_) => match slot_replace(x, m, swap) {
                    Err(e) => (Err(e), FList::Cons(x, Box::new(nrest))),
                    Ok(nx) => (Ok(()), FList::Cons(nx, Box::new(nrest))),
                },
            }
        },
    }
}

/// The inputs of a finished definition, top first: a bound without upper end
/// becomes its lower end.
pub open spec fn fd_collect_from(l: FList) -> Result<FList, TypeError>
    decreases l,
{
    match l {
        FList::Nil => Ok(FList::Nil),
        FList::Cons(x, rest) => {
            let nx = match x {
                FTy::B(b) => if b.upper is None {
                    match b.lower {
                        Some(t) => Ok(FTy::T(t)),
                        None => Err(TypeError::UnresolvedSlot),
                    }
                } else {
                    Ok(x)
                },
                _ => Ok(x),
            };
            match nx {
                Err(e) => Err(e),
                Ok(nx) => match fd_collect_from(*rest) {
                    Err(e) => Err(e),
                    Ok(nrest) => Ok(FList::Cons(nx, Box::new(nrest))),
                },
            }
        },
    }
}

/// The outputs of a finished definition, still top first, converted bottom
/// first: a bound becomes its lower end.
pub open spec fn fd_convert_to(l: FList) -> Result<FList, TypeError>
    decreases l,
{
    match l {
        FList::Nil => Ok(FList::Nil),
        FList::Cons(x, rest) => match fd_convert_to(*rest) {
            Err(e) => Err(e),
            Ok(nrest) => {
                let nx = match x {
                    FTy::B(b) => match b.lower {
                        Some(t) => Ok(FTy::T(t)),
                        None => Err(TypeError::UnresolvedSlot),
                    },
                    _ => Ok(x),
                };
                match nx {
                    Err(e) => Err(e),
                    Ok(nx) => Ok(FList::Cons(nx, Box::new(nrest))),
                }
            },
        },
    }
}

pub open spec fn list_reverse_onto(l: FList, acc: FList) -> FList
    decreases l,
{
    match l {
        FList::Nil => acc,
        FList::Cons(x, rest) => list_reverse_onto(*rest, FList::Cons(x, Box::new(acc))),
    }
}

/// The outputs of a finished definition, bottom first.
pub open spec fn fd_collect_to(l: FList) -> Result<FList, TypeError> {
    match fd_convert_to(l) {
        Err(e) => Err(e),
        Ok(c) => Ok(list_reverse_onto(c, FList::Nil)),
    }
}

impl FDStack {
    fn push(&mut self, fty: FTy)
        ensures
            final(self).0 == FList::Cons(fty, Box::new(old(self).0)),
    {
        let mut rest = FList::Nil;
        std::mem::swap(&mut rest, &mut self.0);
        self.0 = FList::Cons(fty, Box::new(rest));
    }

    fn pop(&mut self) -> (r: Option<FTy>)
        ensures
            match old(self).0 {
                FList::Nil => r is None && final(self).0 == FList::Nil,
                FList::Cons(x, rest) => r == Some(x) && final(self).0 == *rest,
            },
    {
        let mut l = FList::Nil;
        std::mem::swap(&mut l, &mut self.0);
        match l {
            FList::Nil => None,
            FList::Cons(x, rest) => {
                self.0 = *rest;
                Some(x)
            },
        }
    }

    fn replace(&mut self, bindings: &GenBindings, swap: bool) -> (r: Result<(), TypeError>)
        ensures
            (r, final(self).0) == fd_replace(old(self).0, bindings@, swap),
    {
        let mut l = FList::Nil;
        std::mem::swap(&mut l, &mut self.0);
        let (r, nl) = replace_list(l, bindings, swap);
        self.0 = nl;
        r
    }

    fn collect_from(self) -> (r: Result<FList, TypeError>)
        ensures
            r == fd_collect_from(self.0),
    {
        collect_from_list(self.0)
    }

    fn collect_to(self) -> (r: Result<FList, TypeError>)
        ensures
            r == fd_collect_to(self.0),
    {
        match convert_to_list(self.0) {
            Err(e) => Err(e),
            Ok(c) => Ok(reverse_onto(c, FList::Nil)),
        }
    }
}

fn replace_slot(x: FTy, bindings: &GenBindings, swap: bool) -> (r: Result<FTy, TypeError>)
    ensures
        r == slot_replace(x, bindings@, swap),
{
    match x {
        FTy::Gen(_) => match x.resolve_gen(bindings) {
            Err(e) => Err(e),
            Ok(FTy::B(b)) => {
                if b.upper.is_some() {
                    Err(TypeError::UpperBoundInDefinition)
                } else if b.lower.is_none() {
                    Err(TypeError::MissingLowerBound)
                } else if swap {
                    Ok(FTy::B(Bound { upper: b.lower, lower: b.upper }))
                } else {
                    Ok(FTy::B(b))
                }
            },
            Ok(other) => Ok(other),
        },
        _ => Ok(x),
    }
}

fn replace_list(l: FList, bindings: &GenBindings, swap: bool) -> (r: (Result<(), TypeError>, FList))
    ensures
        r == fd_replace(l, bindings@, swap),
    decreases l,
{
    match l {
        FList::Nil => (Ok(()), FList::Nil),
        FList::Cons(x, rest) => {
            let (r, nrest) = replace_list(*rest, bindings, swap);
            match r {
                Err(e) => (Err(e), FList::Cons(x, Box::new(nrest))),
                Ok(_) => {
                    let ghost x0 = x;
                    let kept = x.copy();
                    match replace_slot(x, bindings, swap) {
                        Err(e) => (Err(e), FList::Cons(kept, Box::new(nrest))),
                        Ok(nx) => (Ok(()), FList::Cons(nx, Box::new(nrest))),
                    }
                },
            }
        },
    }
}

fn collect_from_list(l: FList) -> (r: Result<FList, TypeError>)
    ensures
        r == fd_collect_from(l),
    decreases l,
{
    match l {
        FList::Nil => Ok(FList::Nil),
        FList::Cons(x, rest) => {
            let nx = match x {
                FTy::B(b) => {
                    if b.upper.is_none() {
                        match b.lower {
                            Some(t) => FTy::T(t),
                            None => return Err(TypeError::UnresolvedSlot),
                        }
                    } else {
                        FTy::B(b)
                    }
                },
                _ => x,
            };
            match collect_from_list(*rest) {
                Err(e) => Err(e),
                Ok(nrest) => Ok(FList::Cons(nx, Box::new(nrest))),
            }
        },
    }
}

fn convert_to_list(l: FList) -> (r: Result<FList, TypeError>)
    ensures
        r == fd_convert_to(l),
    decreases l,
{
    match l {
        FList::Nil => Ok(FList::Nil),
        FList::Cons(x, rest) => match convert_to_list(*rest) {
            Err(e) => Err(e),
            Ok(nrest) => {
                let nx = match x {
                    FTy::B(b) => match b.lower {
                        Some(t) => FTy::T(t),
                        None => return Err(TypeError::UnresolvedSlot),
                    },
                    _ => x,
                };
                Ok(FList::Cons(nx, Box::new(nrest)))
            },
        },
    }
}

fn reverse_onto(l: FList, acc: FList) -> (r: FList)
    ensures
        r == list_reverse_onto(l, acc),
    decreases l,
{
    match l {
        FList::Nil => acc,
        FList::Cons(x, rest) => reverse_onto(*rest, FList::Cons(x, Box::new(acc))),
    }
}

/// A function definition under construction: the inputs it has been found to
/// need and the outputs it leaves so far, both top first.
#[derive(Debug, PartialEq, Eq)]
pub struct FuncDef {
    pub from: FDStack,
    pub to: FDStack,
}

/// The function type of a finished definition `fd`, pushed as a value: a
/// function taking nothing and leaving the definition's type.
pub open spec fn fd_collect(fd: FuncDef) -> Result<Function, TypeError> {
    match fd_collect_from(fd.from.0) {
        Err(e) => Err(e),
        Ok(from) => match fd_collect_to(fd.to.0) {
            Err(e) => Err(e),
            Ok(to) => Ok(
                Function {
                    from: FList::Nil,
                    to: FList::Cons(
                        FTy::T(Ty::F(Box::new(Function { from, to }))),
                        Box::new(FList::Nil),
                    ),
                },
            ),
        },
    }
}

/// Taking one input: the top output so far must fit it; where there is none,
/// the definition needs one more input.
pub open spec fn fd_take_one(fd: FuncDef, fty: FTy, m: M) -> (Result<(), TypeError>, FuncDef, M) {
    match fd.to.0 {
        FList::Cons(st, rest) => {
            let (r, m1) = fty_merge(fty, st, m, MAX_DEPTH as nat);
            (then_val(r, ()), FuncDef { from: fd.from, to: FDStack(*rest) }, m1)
        },
        FList::Nil => (
            Ok(()),
            FuncDef { from: FDStack(FList::Cons(fty, Box::new(fd.from.0))), to: fd.to },
            m,
        ),
    }
}

pub open spec fn fd_take_all(fd: FuncDef, ts: Seq<FTy>, m: M) -> (Result<(), TypeError>, FuncDef, M)
    decreases ts.len(),
{
    if ts.len() == 0 {
        (Ok(()), fd, m)
    } else {
        let (r, fd1, m1) = fd_take_one(fd, ts.last(), m);
        match r {
            Err(e) => (Err(e), fd1, m1),
            Ok(_) => fd_take_all(fd1, ts.drop_last(), m1),
        }
    }
}

pub open spec fn fd_push_outputs(l: FList, outs: Seq<FTy>, i: int, m: M) -> (Result<
    (),
    TypeError,
>, FList)
    decreases outs.len() - i,
{
    if i >= outs.len() || i < 0 {
        (Ok(()), l)
    } else {
        match fty_rg(outs[i], m, MAX_DEPTH as nat) {
            Err(e) => (Err(e), l),
            Ok(x) => fd_push_outputs(FList::Cons(x, Box::new(l)), outs, i + 1, m),
        }
    }
}

pub open spec fn fd_apply(fd: FuncDef, f: Function) -> (Result<(), TypeError>, FuncDef) {
    let (r, fd1, m1) = fd_take_all(fd, list_seq(f.from), Map::empty());
    match r {
        Err(e) => (Err(e), fd1),
        Ok(_) => {
            let (r2, from2) = fd_replace(fd1.from.0, m1, true);
            match r2 {
                Err(e) => (Err(e), FuncDef { from: FDStack(from2), to: fd1.to }),
                Ok(_) => {
                    let (r3, to3) = fd_replace(fd1.to.0, m1, false);
                    match r3 {
                        Err(e) => (Err(e), FuncDef { from: FDStack(from2), to: FDStack(to3) }),
                        Ok(_) => {
                            let (r4, to4) = fd_push_outputs(to3, list_seq(f.to), 0, m1);
                            (r4, FuncDef { from: FDStack(from2), to: FDStack(to4) })
                        },
                    }
                },
            }
        },
    }
}

pub open spec fn fd_pop_function(fd: FuncDef) -> (Result<Function, TypeError>, FuncDef) {
    match fd.to.0 {
        FList::Nil => (Err(TypeError::NotAFunction), fd),
        FList::Cons(x, rest) => {
            let fd1 = FuncDef { from: fd.from, to: FDStack(*rest) };
            match x {
                FTy::B(b) => match b.lower {
                    None => (Err(TypeError::NoLowerBound), fd1),
                    Some(Ty::F(f)) => (Ok(*f), fd1),
                    Some(_) => (Err(TypeError::NotAFunction), fd1),
                },
                FTy::T(Ty::F(f)) => (Ok(*f), fd1),
                _ => (Err(TypeError::NotAFunction), fd1),
            }
        },
    }
}

impl FuncDef {
    /// The function that pushes the type of this definition.
    pub fn collect(self) -> (r: Result<Function, TypeError>)
        ensures
            r == fd_collect(self),
    {
        let from = match self.from.collect_from() {
            Ok(l) => l,
            Err(e) => return Err(e),
        };
        let to = match self.to.collect_to() {
            Ok(l) => l,
            Err(e) => return Err(e),
        };
        Ok(
            Function {
                from: FList::Nil,
                to: FList::Cons(
                    FTy::T(Ty::F(Box::new(Function { from, to }))),
                    Box::new(FList::Nil),
                ),
            },
        )
    }

    fn take_one(&mut self, fty: FTy, bindings: &mut GenBindings) -> (r: Result<(), TypeError>)
        ensures
            (r, *final(self), final(bindings)@) == fd_take_one(*old(self), fty, old(bindings)@),
    {
        match self.to.pop() {
            Some(stack_ty) => match fty.merge(stack_ty, bindings) {
                Err(e) => Err(e),
                Ok(_) => Ok(()),
            },
            None => {
                self.from.push(fty);
                Ok(())
            },
        }
    }
    fn take_all(&mut self, types: &[FTy], bindings: &mut GenBindings) -> (r: Result<
        (),
        TypeError,
    >)
        ensures
            (r, *final(self), final(bindings)@) == fd_take_all(*old(self), types@, old(bindings)@),
    {
        let ghost target = fd_take_all(*old(self), types@, old(bindings)@);
        let mut j: usize = types.len();
        assert(types@.take(j as int) =~= types@);
        while j > 0
            invariant
                j <= types@.len(),
                target == fd_take_all(*old(self), types@, old(bindings)@),
                fd_take_all(*self, types@.take(j as int), bindings@) == target,
            decreases j,
        {
            assert(types@.take(j as int).drop_last() =~= types@.take(j - 1));
            assert(types@.take(j as int).last() == types@[j - 1]);
            let x = types[j - 1].copy();
            match self.take_one(x, bindings) {
                Err(e) => return Err(e),
                Ok(_) => {},
            }
            j = j - 1;
        }
        Ok(())
    }
}

impl StackLike for FuncDef {
    open spec fn apply_spec(self, function: Function) -> (Result<(), TypeError>, FuncDef) {
        fd_apply(self, function)
    }

    open spec fn pop_function_spec(self) -> (Result<Function, TypeError>, FuncDef) {
        fd_pop_function(self)
    }

    open spec fn empty_spec() -> FuncDef {
        FuncDef { from: FDStack(FList::Nil), to: FDStack(FList::Nil) }
    }

    fn empty() -> (r: FuncDef) {
        FuncDef { from: FDStack(FList::Nil), to: FDStack(FList::Nil) }
    }

    fn apply(&mut self, function: Function) -> (r: Result<(), TypeError>) {
        let ghost target = fd_apply(*old(self), function);
        let mut bindings: GenBindings = HashMap::new();
        let from = function.from();
        assert(bindings@ == Map::<Gen, Binding>::empty());
        match self.take_all(from.as_slice(), &mut bindings) {
            Err(e) => return Err(e),
            Ok(_) => {},
        }
        match self.from.replace(&bindings, true) {
            Err(e) => return Err(e),
            Ok(_) => {},
        }
        match self.to.replace(&bindings, false) {
            Err(e) => return Err(e),
            Ok(_) => {},
        }
        let to = function.to();
        let mut i: usize = 0;
        let ghost from2 = self.from.0;
        let ghost m1 = bindings@;
        assert(target == ({
            let (r4, to4) = fd_push_outputs(self.to.0, to@, 0, m1);
            (r4, FuncDef { from: FDStack(from2), to: FDStack(to4) })
        }));
        while i < to.len()
            invariant
                to@ == list_seq(function.to),
                i <= to@.len(),
                m1 == bindings@,
                self.from.0 == from2,
                target == fd_apply(*old(self), function),
                target == ({
                    let (r4, to4) = fd_push_outputs(self.to.0, to@, i as int, m1);
                    (r4, FuncDef { from: FDStack(from2), to: FDStack(to4) })
                }),
            decreases to@.len() - i,
        {
            let x = match to[i].copy().resolve_gen(&bindings) {
                Ok(x) => x,
                Err(e) => return Err(e),
            };
            self.to.push(x);
            i = i + 1;
        }
        Ok(())
    }

    fn pop_function(&mut self) -> (r: Result<Function, TypeError>) {
        match self.to.pop() {
            Some(FTy::B(bound)) => match bound.as_ty() {
                Err(e) => Err(e),
                Ok(Ty::F(f)) => Ok(*f),
                Ok(_) => Err(TypeError::NotAFunction),
            },
            Some(FTy::T(Ty::F(f))) => Ok(*f),
            _ => Err(TypeError::NotAFunction),
        }
    }
}

// ----------------------------------------------------------------------
// Checking one node
// ----------------------------------------------------------------------

/// The result of checking a node: the context goes on, or a definition was
/// closed and its function (pushing the definition's type) comes back.
#[derive(Debug, PartialEq, Eq)]
pub enum Checked<C> {
    Continue(C),
    Closed(Function),
}

/// A nested context.
#[derive(Debug, PartialEq, Eq)]
pub enum ContextType {
    FD(FDContext),
}

/// A checking context: a stack, the functions known by name and, while a
/// definition is open inside, the context of that definition.
#[derive(Debug, PartialEq, Eq)]
pub struct BaseContext<S> {
    pub stack: S,
    pub store: Store,
    pub child_context: Option<Box<ContextType>>,
}

/// The context of the program itself.
pub type ExecContext = BaseContext<Stack>;

/// The context of a function definition.
pub type FDContext = BaseContext<FuncDef>;

impl<S: StackLike> BaseContext<S> {
    /// A context with an empty stack and the given store.
    pub fn new(store: Store) -> (r: Self)
        ensures
            r == (BaseContext { stack: S::empty_spec(), store, child_context: None }),
    {
        BaseContext { stack: S::empty(), store, child_context: None }
    }
}

/// A context type that can check one node at a time.
pub trait Context: Sized {
    spec fn check_node_spec(self, node: AstNode, next_gen: Gen) -> (
        Result<Checked<Self>, TypeError>,
        Gen,
    );

    /// Checks one node; `next_gen` is the next fresh type variable.
    fn check_node(self, node: &AstNode, next_gen: &mut Gen) -> (r: Result<
        Checked<Self>,
        TypeError,
    >)
        ensures
            (r, *final(next_gen)) == self.check_node_spec(*node, *old(next_gen)),
    ;
}

/// The variables `start, start + 1, ...`, `n` of them.
pub open spec fn gen_list(start: Gen, n: nat) -> FList
    decreases n,
{
    if n == 0 {
        FList::Nil
    } else {
        FList::Cons(FTy::Gen(start), Box::new(gen_list((start + 1) as u64, (n - 1) as nat)))
    }
}

/// The function type that an arity annotation asks for, built from fresh
/// variables starting at `base`.
pub open spec fn arity_ty(from: u32, to: u32, base: Gen) -> Ty {
    Ty::F(
        Box::new(
            Function {
                from: gen_list(base, from as nat),
                to: gen_list((base + from) as u64, to as nat),
            },
        ),
    )
}

/// The one-slot list holding `x`.
pub open spec fn single(x: FTy) -> FList {
    FList::Cons(x, Box::new(FList::Nil))
}

/// The function taking nothing and leaving a value of type `t`.
pub open spec fn pushes(t: Ty) -> Function {
    Function { from: FList::Nil, to: single(FTy::T(t)) }
}

/// What one stack operation does to a stack, the store and the supply of
/// fresh variables.
pub open spec fn mod_stack_spec<S: StackLike>(sm: StackMod, stack: S, store: Store, next: Gen) -> (
    Result<(), TypeError>,
    S,
    Store,
    Gen,
) {
    match sm {
        StackMod::Arity(from, to) => if from + to > u32::MAX {
            (Err(TypeError::ArityOverflow), stack, store, next)
        } else if next + from + to > u64::MAX {
            (Err(TypeError::OutOfGenerics), stack, store, next)
        } else {
            let wanted = arity_ty(from, to, next);
            let (r, s1) = stack.apply_spec(
                Function { from: single(FTy::T(wanted)), to: single(FTy::T(wanted)) },
            );
            (r, s1, store, (next + from + to) as u64)
        },
        StackMod::Id(id) => match env_get(store, name_from(id@)) {
            None => (Err(TypeError::UnknownIdentifier), stack, store, next),
            Some(sc) => match instantiate_spec(sc, next) {
                Err(e) => (Err(e), stack, store, next),
                Ok((f, n1)) => {
                    let (r, s1) = stack.apply_spec(f);
                    (r, s1, store, n1)
                },
            },
        },
        StackMod::Quote(id) => match env_get(store, name_from(id@)) {
            None => (Err(TypeError::UnknownIdentifier), stack, store, next),
            Some(sc) => match instantiate_spec(sc, next) {
                Err(e) => (Err(e), stack, store, next),
                Ok((f, n1)) => {
                    let (r, s1) = stack.apply_spec(pushes(Ty::F(Box::new(f))));
                    (r, s1, store, n1)
                },
            },
        },
        StackMod::Apply => {
            let (r, s1) = stack.pop_function_spec();
            match r {
                Err(e) => (Err(e), s1, store, next),
                Ok(f) => {
                    let (r2, s2) = s1.apply_spec(f);
                    (r2, s2, store, next)
                },
            }
        },
        StackMod::Bind(id) => {
            let (r, s1) = stack.pop_function_spec();
            match r {
                Err(e) => (Err(e), s1, store, next),
                Ok(f) => (Ok(()), s1, env_insert(store, name_from(id@), Scheme { params: 0, body: f }), next),
            }
        },
        StackMod::Int(_) => {
            let (r, s1) = stack.apply_spec(pushes(Ty::Int));
            (r, s1, store, next)
        },
    }
}

fn fresh_gens(next_gen: &mut Gen, n: u32) -> (r: Vec<FTy>)
    requires
        *old(next_gen) + n <= u64::MAX,
    ensures
        r@ == list_seq(gen_list(*old(next_gen), n as nat)),
        *final(next_gen) == *old(next_gen) + n,
    decreases n,
{
    if n == 0 {
        Vec::new()
    } else {
        let mut v: Vec<FTy> = Vec::new();
        match FTy::new_gen(next_gen) {
            Ok(g) => v.push(g),
            Err(_) => {
                proof {
                    assert(false);
                }
            },
        }
        let mut rest = fresh_gens(next_gen, n - 1);
        v.append(&mut rest);
        v
    }
}

impl FTy {
    /// A slot holding a fresh type variable: the one `next_gen` names, after
    /// which `next_gen` moves on.
    pub fn new_gen(next_gen: &mut Gen) -> (r: Result<FTy, TypeError>)
        ensures
            *old(next_gen) < u64::MAX ==> r == Ok::<FTy, TypeError>(FTy::Gen(*old(next_gen)))
                && *final(next_gen) == *old(next_gen) + 1,
            *old(next_gen) == u64::MAX ==> r == Err::<FTy, TypeError>(TypeError::OutOfGenerics)
                && *final(next_gen) == *old(next_gen),
    {
        if *next_gen == u64::MAX {
            return Err(TypeError::OutOfGenerics);
        }
        let g = *next_gen;
        *next_gen = g + 1;
        Ok(FTy::Gen(g))
    }
}

fn single_list(x: FTy) -> (r: FList)
    ensures
        r == single(x),
{
    FList::Cons(x, Box::new(FList::Nil))
}

fn pushes_fn(t: Ty) -> (r: Function)
    ensures
        r == pushes(t),
{
    Function { from: FList::Nil, to: single_list(FTy::T(t)) }
}

/// Performs one stack operation.
pub fn mod_stack<S: StackLike>(
    stackmod: &StackMod,
    stack: &mut S,
    store: &mut Store,
    next_gen: &mut Gen,
) -> (r: Result<(), TypeError>)
    ensures
        (r, *final(stack), *final(store), *final(next_gen)) == mod_stack_spec(
            *stackmod,
            *old(stack),
            *old(store),
            *old(next_gen),
        ),
{
    match stackmod {
        StackMod::Arity(from, to) => {
            if *from > u32::MAX - *to {
                return Err(TypeError::ArityOverflow);
            }
            let total: u64 = *from as u64 + *to as u64;
            if *next_gen > u64::MAX - total {
                return Err(TypeError::OutOfGenerics);
            }
            let base = *next_gen;
            let from_t = fresh_gens(next_gen, *from);
            let to_t = fresh_gens(next_gen, *to);
            let f = Function::new(from_t, to_t);
            proof {
                lemma_list_seq_injective(f.from, gen_list(base, *from as nat));
                lemma_list_seq_injective(f.to, gen_list((base + *from) as u64, *to as nat));
            }
            let wanted_f = Ty::F(Box::new(f));
            let wanted_copy = wanted_f.copy();
            stack.apply(
                Function {
                    from: single_list(FTy::T(wanted_copy)),
                    to: single_list(FTy::T(wanted_f)),
                },
            )
        },
        StackMod::Id(id) => match store.get(&Name::from_string(id)) {
            Some(sc) => {
                let f = match sc.instantiate(next_gen) {
                    Ok(f) => f,
                    Err(e) => return Err(e),
                };
                stack.apply(f)
            },
            None => Err(TypeError::UnknownIdentifier),
        },
        StackMod::Quote(id) => match store.get(&Name::from_string(id)) {
            Some(sc) => {
                let f = match sc.instantiate(next_gen) {
                    Ok(f) => f,
                    Err(e) => return Err(e),
                };
                stack.apply(pushes_fn(Ty::F(Box::new(f))))
            },
            None => Err(TypeError::UnknownIdentifier),
        },
        StackMod::Apply => {
            let f = match stack.pop_function() {
                Ok(f) => f,
                Err(e) => return Err(e),
            };
            stack.apply(f)
        },
        StackMod::Bind(id) => {
            let f = match stack.pop_function() {
                Ok(f) => f,
                Err(e) => return Err(e),
            };
            let mut st = Env::Empty;
            std::mem::swap(&mut st, store);
            *store = st.insert(Name::from_string(id), Scheme::fixed(f));
            Ok(())
        },
        StackMod::Int(_) => stack.apply(pushes_fn(Ty::Int)),
    }
}

/// Checking one node inside a definition context.
pub open spec fn fd_check_spec(c: FDContext, node: AstNode, next: Gen) -> (
    Result<Checked<FDContext>, TypeError>,
    Gen,
)
    decreases c,
{
    match c.child_context {
        Some(child) => match *child {
            ContextType::FD(fd) => {
                let (r, n1) = fd_check_spec(fd, node, next);
                match r {
                    Err(e) => (Err(e), n1),
                    Ok(Checked::Continue(nfd)) => (
                        Ok(
                            Checked::Continue(
                                BaseContext {
                                    stack: c.stack,
                                    store: c.store,
                                    child_context: Some(Box::new(ContextType::FD(nfd))),
                                },
                            ),
                        ),
                        n1,
                    ),
                    Ok(Checked::Closed(f)) => {
                        let (ra, s1) = c.stack.apply_spec(f);
                        match ra {
                            Err(e) => (Err(e), n1),
                            Ok(_) => (
                                Ok(
                                    Checked::Continue(
                                        BaseContext {
                                            stack: s1,
                                            store: c.store,
                                            child_context: None,
                                        },
                                    ),
                                ),
                                n1,
                            ),
                        }
                    },
                }
            },
        },
        None => match node {
            AstNode::S(sm) => {
                let (r, s1, st1, n1) = mod_stack_spec(sm, c.stack, c.store, next);
                match r {
                    Err(e) => (Err(e), n1),
                    Ok(_) => (
                        Ok(
                            Checked::Continue(
                                BaseContext { stack: s1, store: st1, child_context: None },
                            ),
                        ),
                        n1,
                    ),
                }
            },
            AstNode::OpenFunc => (
                Ok(
                    Checked::Continue(
                        BaseContext {
                            stack: c.stack,
                            store: c.store,
                            child_context: Some(
                                Box::new(
                                    ContextType::FD(
                                        BaseContext {
                                            stack: FuncDef::empty_spec(),
                                            store: c.store,
                                            child_context: None,
                                        },
                                    ),
                                ),
                            ),
                        },
                    ),
                ),
                next,
            ),
            AstNode::CloseFunc => match fd_collect(c.stack) {
                Err(e) => (Err(e), next),
                Ok(f) => (Ok(Checked::Closed(f)), next),
            },
        },
    }
}

/// Checking one node in the context of the program itself; such a context
/// never closes.
pub open spec fn exec_check_spec(c: ExecContext, node: AstNode, next: Gen) -> (
    Result<ExecContext, TypeError>,
    Gen,
) {
    match c.child_context {
        Some(child) => match *child {
            ContextType::FD(fd) => {
                let (r, n1) = fd_check_spec(fd, node, next);
                match r {
                    Err(e) => (Err(e), n1),
                    Ok(Checked::Continue(nfd)) => (
                        Ok(
                            BaseContext {
                                stack: c.stack,
                                store: c.store,
                                child_context: Some(Box::new(ContextType::FD(nfd))),
                            },
                        ),
                        n1,
                    ),
                    Ok(Checked::Closed(f)) => {
                        let (ra, s1) = c.stack.apply_spec(f);
                        match ra {
                            Err(e) => (Err(e), n1),
                            Ok(_) => (
                                Ok(BaseContext { stack: s1, store: c.store, child_context: None }),
                                n1,
                            ),
                        }
                    },
                }
            },
        },
        None => match node {
            AstNode::S(sm) => {
                let (r, s1, st1, n1) = mod_stack_spec(sm, c.stack, c.store, next);
                match r {
                    Err(e) => (Err(e), n1),
                    Ok(_) => (Ok(BaseContext { stack: s1, store: st1, child_context: None }), n1),
                }
            },
            AstNode::OpenFunc => (
                Ok(
                    BaseContext {
                        stack: c.stack,
                        store: c.store,
                        child_context: Some(
                            Box::new(
                                ContextType::FD(
                                    BaseContext {
                                        stack: FuncDef::empty_spec(),
                                        store: c.store,
                                        child_context: None,
                                    },
                                ),
                            ),
                        ),
                    },
                ),
                next,
            ),
            AstNode::CloseFunc => (Err(TypeError::NotInFunction), next),
        },
    }
}

fn fd_check_node(c: FDContext, node: &AstNode, next_gen: &mut Gen) -> (r: Result<
    Checked<FDContext>,
    TypeError,
>)
    ensures
        (r, *final(next_gen)) == fd_check_spec(c, *node, *old(next_gen)),
    decreases c,
{
    let mut c = c;
    let mut child: Option<Box<ContextType>> = None;
    std::mem::swap(&mut child, &mut c.child_context);
    match child {
        Some(bx) => {
            let ContextType::FD(fd) = *bx;
            match fd_check_node(fd, node, next_gen) {
                Err(e) => Err(e),
                Ok(Checked::Continue(nfd)) => {
                    c.child_context = Some(Box::new(ContextType::FD(nfd)));
                    Ok(Checked::Continue(c))
                },
                Ok(Checked::Closed(f)) => match c.stack.apply(f) {
                    Err(e) => Err(e),
                    Ok(_) => Ok(Checked::Continue(c)),
                },
            }
        },
        None => match node {
            AstNode::S(sm) => match mod_stack(sm, &mut c.stack, &mut c.store, next_gen) {
                Err(e) => Err(e),
                Ok(_) => Ok(Checked::Continue(c)),
            },
            AstNode::OpenFunc => {
                let inner = BaseContext::<FuncDef>::new(c.store.copy());
                c.child_context = Some(Box::new(ContextType::FD(inner)));
                Ok(Checked::Continue(c))
            },
            AstNode::CloseFunc => match c.stack.collect() {
                Err(e) => Err(e),
                Ok(f) => Ok(Checked::Closed(f)),
            },
        },
    }
}

fn exec_check_node(c: ExecContext, node: &AstNode, next_gen: &mut Gen) -> (r: Result<
    ExecContext,
    TypeError,
>)
    ensures
        (r, *final(next_gen)) == exec_check_spec(c, *node, *old(next_gen)),
{
    let mut c = c;
    let mut child: Option<Box<ContextType>> = None;
    std::mem::swap(&mut child, &mut c.child_context);
    match child {
        Some(bx) => {
            let ContextType::FD(fd) = *bx;
            match fd_check_node(fd, node, next_gen) {
                Err(e) => Err(e),
                Ok(Checked::Continue(nfd)) => {
                    c.child_context = Some(Box::new(ContextType::FD(nfd)));
                    Ok(c)
                },
                Ok(Checked::Closed(f)) => match c.stack.apply(f) {
                    Err(e) => Err(e),
                    Ok(_) => Ok(c),
                },
            }
        },
        None => match node {
            AstNode::S(sm) => match mod_stack(sm, &mut c.stack, &mut c.store, next_gen) {
                Err(e) => Err(e),
                Ok(_) => Ok(c),
            },
            AstNode::OpenFunc => {
                let inner = BaseContext::<FuncDef>::new(c.store.copy());
                c.child_context = Some(Box::new(ContextType::FD(inner)));
                Ok(c)
            },
            AstNode::CloseFunc => Err(TypeError::NotInFunction),
        },
    }
}

impl Context for ExecContext {
    open spec fn check_node_spec(self, node: AstNode, next_gen: Gen) -> (
        Result<Checked<ExecContext>, TypeError>,
        Gen,
    ) {
        let (r, n) = exec_check_spec(self, node, next_gen);
        match r {
            Ok(c) => (Ok(Checked::Continue(c)), n),
            Err(e) => (Err(e), n),
        }
    }

    fn check_node(self, node: &AstNode, next_gen: &mut Gen) -> (r: Result<
        Checked<ExecContext>,
        TypeError,
    >) {
        match exec_check_node(self, node, next_gen) {
            Ok(c) => Ok(Checked::Continue(c)),
            Err(e) => Err(e),
        }
    }
}

impl Context for FDContext {
    open spec fn check_node_spec(self, node: AstNode, next_gen: Gen) -> (
        Result<Checked<FDContext>, TypeError>,
        Gen,
    ) {
        fd_check_spec(self, node, next_gen)
    }

    fn check_node(self, node: &AstNode, next_gen: &mut Gen) -> (r: Result<
        Checked<FDContext>,
        TypeError,
    >) {
        fd_check_node(self, node, next_gen)
    }
}

impl Context for ContextType {
    open spec fn check_node_spec(self, node: AstNode, next_gen: Gen) -> (
        Result<Checked<ContextType>, TypeError>,
        Gen,
    ) {
        match self {
            ContextType::FD(fd) => {
                let (r, n) = fd_check_spec(fd, node, next_gen);
                match r {
                    Err(e) => (Err(e), n),
                    Ok(Checked::Continue(c)) => (Ok(Checked::Continue(ContextType::FD(c))), n),
                    Ok(Checked::Closed(f)) => (Ok(Checked::Closed(f)), n),
                }
            },
        }
    }

    fn check_node(self, node: &AstNode, next_gen: &mut Gen) -> (r: Result<
        Checked<ContextType>,
        TypeError,
    >) {
        match self {
            ContextType::FD(fd) => match fd_check_node(fd, node, next_gen) {
                Err(e) => Err(e),
                Ok(Checked::Continue(c)) => Ok(Checked::Continue(ContextType::FD(c))),
                Ok(Checked::Closed(f)) => Ok(Checked::Closed(f)),
            },
        }
    }
}

} // verus!
