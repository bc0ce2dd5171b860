use crate::bindings::{
    insert, insert_spec, resolve_and_pop, resolve_and_pop_spec, Popped,
};
use crate::resolve::{ty_rg, MAX_DEPTH};
use crate::types::{Binding, Bound, FList, FTy, Function, Gen, GenBindings, Ty, TypeError};
use vstd::prelude::*;

verus! {

/// A slot seen as either a variable or a bound (a concrete type `t` is the
/// bound whose lower end is `t`).
#[derive(Debug)]
pub enum Side {
    Var(Gen),
    Bnd(Bound),
}

pub open spec fn side(x: FTy) -> Side {
    match x {
        FTy::B(b) => Side::Bnd(b),
        FTy::T(t) => Side::Bnd(Bound { upper: None, lower: Some(t) }),
        FTy::Gen(g) => Side::Var(g),
    }
}

fn to_side(x: FTy) -> (r: Side)
    ensures
        r == side(x),
{
    match x {
        FTy::B(b) => Side::Bnd(b),
        FTy::T(t) => Side::Bnd(Bound::from_lower(t)),
        FTy::Gen(g) => Side::Var(g),
    }
}

pub open spec fn list_len(l: FList) -> nat
    decreases l,
{
    match l {
        FList::Nil => 0,
        FList::Cons(_, rest) => 1 + list_len(*rest),
    }
}

pub open spec fn list_append(a: FList, b: FList) -> FList
    decreases a,
{
    match a {
        FList::Nil => b,
        FList::Cons(x, rest) => FList::Cons(x, Box::new(list_append(*rest, b))),
    }
}

/// The value `v` once `r` succeeded, or the error of `r`.
pub open spec fn then_val<T, V>(r: Result<T, TypeError>, v: V) -> Result<V, TypeError> {
    match r {
        Ok(_) => Ok(v),
        Err(e) => Err(e),
    }
}

type M = Map<Gen, Binding>;

// ----------------------------------------------------------------------
// The merge of two slots, and of bounds, types and function types
// ----------------------------------------------------------------------

/// Merging two slots: variables are unified through the bindings, bounds are
/// narrowed; the merged slot comes back with the new bindings.
pub open spec fn fty_merge(s: FTy, o: FTy, m: M, d: nat) -> (Result<FTy, TypeError>, M)
    decreases d,
{
    if d == 0 {
        (Err(TypeError::TooDeep), m)
    } else {
        let d1 = (d - 1) as nat;
        match side(s) {
            Side::Var(gen) => {
                let (p, m1) = resolve_and_pop_spec(gen, m);
                match p {
                    Err(e) => (Err(e), m1),
                    Ok(Popped::Free(key)) => match side(o) {
                        Side::Bnd(ob) => {
                            let (r, m2) = insert_spec(m1, key, Binding::Bounded(ob));
                            (then_val(r, FTy::Gen(key)), m2)
                        },
                        Side::Var(og) => {
                            let (p2, m2) = resolve_and_pop_spec(og, m1);
                            match p2 {
                                Err(e) => (Err(e), m2),
                                Ok(Popped::Free(okey)) => if key != okey {
                                    let (r, m3) = insert_spec(m2, key, Binding::Alias(okey));
                                    (then_val(r, FTy::Gen(key)), m3)
                                } else {
                                    (Ok(FTy::Gen(key)), m2)
                                },
                                Ok(Popped::Bounded(okey, ob)) => {
                                    let (r, m3) = insert_spec(m2, okey, Binding::Bounded(ob));
                                    match r {
                                        Err(e) => (Err(e), m3),
                                        Ok(_) => {
                                            let (r2, m4) = insert_spec(
                                                m3,
                                                key,
                                                Binding::Alias(okey),
                                            );
                                            (then_val(r2, FTy::Gen(okey)), m4)
                                        },
                                    }
                                },
                            }
                        },
                    },
                    Ok(Popped::Bounded(key, bound)) => {
                        let (r, nb, m2) = match side(o) {
                            Side::Bnd(ob) => bound_merge(bound, ob, m1, d1),
                            Side::Var(og) => {
                                let (p2, mm) = resolve_and_pop_spec(og, m1);
                                match p2 {
                                    Err(e) => (Err(e), bound, mm),
                                    Ok(Popped::Free(okey)) => {
                                        let (ri, mi) = insert_spec(mm, okey, Binding::Alias(key));
                                        (then_val(ri, ()), bound, mi)
                                    },
                                    Ok(Popped::Bounded(okey, ob)) => {
                                        let (ri, mi) = insert_spec(mm, okey, Binding::Alias(key));
                                        match ri {
                                            Err(e) => (Err(e), bound, mi),
                                            Ok(_) => bound_merge(bound, ob, mi, d1),
                                        }
                                    },
                                }
                            },
                        };
                        match r {
                            Err(e) => (Err(e), m2),
                            Ok(_) => {
                                let (ri, m3) = insert_spec(m2, key, Binding::Bounded(nb));
                                (then_val(ri, FTy::Gen(key)), m3)
                            },
                        }
                    },
                }
            },
            Side::Bnd(bound) => match side(o) {
                Side::Bnd(sb) => {
                    let (r, nb, m1) = bound_merge(bound, sb, m, d1);
                    (then_val(r, FTy::B(nb)), m1)
                },
                Side::Var(g) => fty_merge(FTy::Gen(g), FTy::B(bound), m, d1),
            },
        }
    }
}

/// Narrowing bound `s` by bound `o`: first by its upper end, then by its lower
/// end, then checking that the result is sound.
pub open spec fn bound_merge(s: Bound, o: Bound, m: M, d: nat) -> (Result<(), TypeError>, Bound, M)
    decreases d,
{
    if d == 0 {
        (Err(TypeError::TooDeep), s, m)
    } else {
        let d1 = (d - 1) as nat;
        let (r1, s1, m1) = match o.upper {
            Some(t) => bound_upper(s, t, m, d1),
            None => (Ok(()), s, m),
        };
        match r1 {
            Err(e) => (Err(e), s1, m1),
            Ok(_) => {
                let (r2, s2, m2) = match o.lower {
                    Some(t) => bound_lower(s1, t, m1, d1),
                    None => (Ok(()), s1, m1),
                };
                match r2 {
                    Err(e) => (Err(e), s2, m2),
                    Ok(_) => {
                        let (r3, m3) = bound_sound(s2, m2, d1);
                        (r3, s2, m3)
                    },
                }
            },
        }
    }
}

/// Adding an upper end `t` to `s`. Where `s` already has one, the greatest
/// lower bound of the two becomes the lower end and the upper end is dropped.
pub open spec fn bound_upper(s: Bound, t: Ty, m: M, d: nat) -> (Result<(), TypeError>, Bound, M)
    decreases d,
{
    if d == 0 {
        (Err(TypeError::TooDeep), s, m)
    } else {
        let d1 = (d - 1) as nat;
        match s.upper {
            Some(ub) => {
                let (r, m1) = ty_glb(ub, t, m, d1);
                match r {
                    Err(e) => (Err(e), Bound { upper: None, lower: s.lower }, m1),
                    Ok(g) => {
                        let s1 = Bound { upper: None, lower: Some(g) };
                        let (r2, m2) = bound_sound(s1, m1, d1);
                        (r2, s1, m2)
                    },
                }
            },
            None => {
                let s1 = Bound { upper: Some(t), lower: s.lower };
                let (r2, m2) = bound_sound(s1, m, d1);
                (r2, s1, m2)
            },
        }
    }
}

/// Adding a lower end `t` to `s`; an existing lower end is joined with it.
pub open spec fn bound_lower(s: Bound, t: Ty, m: M, d: nat) -> (Result<(), TypeError>, Bound, M)
    decreases d,
{
    if d == 0 {
        (Err(TypeError::TooDeep), s, m)
    } else {
        let d1 = (d - 1) as nat;
        match s.lower {
            Some(lb) => {
                let (r, m1) = ty_lub(lb, t, m, d1);
                match r {
                    Err(e) => (Err(e), Bound { upper: s.upper, lower: None }, m1),
                    Ok(l) => {
                        let s1 = Bound { upper: s.upper, lower: Some(l) };
                        let (r2, m2) = bound_sound(s1, m1, d1);
                        (r2, s1, m2)
                    },
                }
            },
            None => {
                let s1 = Bound { upper: s.upper, lower: Some(t) };
                let (r2, m2) = bound_sound(s1, m, d1);
                (r2, s1, m2)
            },
        }
    }
}

/// A bound with both ends is sound when joining its ends gives back its upper
/// end (both taken after substitution).
pub open spec fn bound_sound(s: Bound, m: M, d: nat) -> (Result<(), TypeError>, M)
    decreases d,
{
    if d == 0 {
        (Err(TypeError::TooDeep), m)
    } else {
        let d1 = (d - 1) as nat;
        match s.upper {
            Some(ub) => match s.lower {
                Some(lb) => {
                    let (r1, m1) = ty_lub(ub, lb, m, d1);
                    match r1 {
                        Err(e) => (Err(e), m1),
                        Ok(l) => match ty_rg(l, m1, d1) {
                            Err(e) => (Err(e), m1),
                            Ok(lub) => match ty_rg(ub, m1, d1) {
                                Err(e) => (Err(e), m1),
                                Ok(rub) => if rub != lub {
                                    (Err(TypeError::NotSound), m1)
                                } else {
                                    (Ok(()), m1)
                                },
                            },
                        },
                    }
                },
                None => (Ok(()), m),
            },
            None => (Ok(()), m),
        }
    }
}

/// The greatest lower bound of two types: function types meet slot by slot,
/// other types must be equal.
pub open spec fn ty_glb(s: Ty, w: Ty, m: M, d: nat) -> (Result<Ty, TypeError>, M)
    decreases d,
{
    if d == 0 {
        (Err(TypeError::TooDeep), m)
    } else {
        match s {
            Ty::F(f) => match w {
                Ty::F(of) => {
                    let (r, m1) = fn_meet(*f, *of, m, (d - 1) as nat, false);
                    match r {
                        Ok(nf) => (Ok(Ty::F(Box::new(nf))), m1),
                        Err(e) => (Err(e), m1),
                    }
                },
                _ => (Err(TypeError::Mismatch(s, w)), m),
            },
            _ => if s != w {
                (Err(TypeError::Mismatch(s, w)), m)
            } else {
                (Ok(w), m)
            },
        }
    }
}

/// The least upper bound of two types: as `ty_glb`, but surplus slots of
/// function types are kept.
pub open spec fn ty_lub(s: Ty, w: Ty, m: M, d: nat) -> (Result<Ty, TypeError>, M)
    decreases d,
{
    if d == 0 {
        (Err(TypeError::TooDeep), m)
    } else {
        match s {
            Ty::F(f) => match w {
                Ty::F(of) => {
                    let (r, m1) = fn_meet(*f, *of, m, (d - 1) as nat, true);
                    match r {
                        Ok(nf) => (Ok(Ty::F(Box::new(nf))), m1),
                        Err(e) => (Err(e), m1),
                    }
                },
                _ => (Err(TypeError::Mismatch(s, w)), m),
            },
            _ => if s != w {
                (Err(TypeError::Mismatch(s, w)), m)
            } else {
                (Ok(w), m)
            },
        }
    }
}

/// Whether two function types have the same difference of arities.
pub open spec fn arity_compatible(f: Function, o: Function) -> bool {
    list_len(f.from) - list_len(o.from) == list_len(f.to) - list_len(o.to)
}

/// Lining up two function types: inputs slot by slot, then outputs; the
/// surplus inputs are merged with the surplus outputs and, when `extend`
/// holds, appended to both sides of the result.
pub open spec fn fn_meet(f: Function, o: Function, m: M, d: nat, extend: bool) -> (Result<
    Function,
    TypeError,
>, M)
    decreases d,
{
    if d == 0 {
        (Err(TypeError::TooDeep), m)
    } else if !arity_compatible(f, o) {
        (Err(TypeError::IncompatibleLength(f, o)), m)
    } else {
        let d1 = (d - 1) as nat;
        let (r1, m1) = zip_merge(f.from, o.from, m, d1);
        match r1 {
            Err(e) => (Err(e), m1),
            Ok((from, rem_from)) => {
                let (r2, m2) = zip_merge(f.to, o.to, m1, d1);
                match r2 {
                    Err(e) => (Err(e), m2),
                    Ok((to, rem_to)) => {
                        let (r3, m3) = pair_merge(rem_from, rem_to, m2, d1);
                        match r3 {
                            Err(e) => (Err(e), m3),
                            Ok(rem) => if extend {
                                (
                                    Ok(
                                        Function {
                                            from: list_append(from, rem),
                                            to: list_append(to, rem),
                                        },
                                    ),
                                    m3,
                                )
                            } else {
                                (Ok(Function { from, to }), m3)
                            },
                        }
                    },
                }
            },
        }
    }
}

/// Merging two lists slot by slot as far as both reach; what is left of the
/// longer list comes back beside the merged slots.
pub open spec fn zip_merge(a: FList, b: FList, m: M, d: nat) -> (Result<(FList, FList), TypeError>, M)
    decreases d,
{
    if d == 0 {
        (Err(TypeError::TooDeep), m)
    } else {
        let d1 = (d - 1) as nat;
        match a {
            FList::Cons(x, ar) => match b {
                FList::Cons(y, br) => {
                    let (r, m1) = fty_merge(x, y, m, d1);
                    match r {
                        Err(e) => (Err(e), m1),
                        Ok(v) => {
                            let (r2, m2) = zip_merge(*ar, *br, m1, d1);
                            match r2 {
                                Err(e) => (Err(e), m2),
                                Ok((mg, rem)) => (Ok((FList::Cons(v, Box::new(mg)), rem)), m2),
                            }
                        },
                    }
                },
                FList::Nil => (Ok((FList::Nil, a)), m),
            },
            FList::Nil => (Ok((FList::Nil, b)), m),
        }
    }
}

/// Merging two lists slot by slot, stopping at the end of the shorter one.
pub open spec fn pair_merge(a: FList, b: FList, m: M, d: nat) -> (Result<FList, TypeError>, M)
    decreases d,
{
    if d == 0 {
        (Err(TypeError::TooDeep), m)
    } else {
        let d1 = (d - 1) as nat;
        match a {
            FList::Cons(x, ar) => match b {
                FList::Cons(y, br) => {
                    let (r, m1) = fty_merge(x, y, m, d1);
                    match r {
                        Err(e) => (Err(e), m1),
                        Ok(v) => {
                            let (r2, m2) = pair_merge(*ar, *br, m1, d1);
                            match r2 {
                                Err(e) => (Err(e), m2),
                                Ok(mg) => (Ok(FList::Cons(v, Box::new(mg))), m2),
                            }
                        },
                    }
                },
                FList::Nil => (Ok(FList::Nil), m),
            },
            FList::Nil => (Ok(FList::Nil), m),
        }
    }
}

// ----------------------------------------------------------------------
// Executable merge
// ----------------------------------------------------------------------

impl FTy {
    /// Merges two slots under the bindings: the merged slot, or why they do not fit.
    pub fn merge(self, other_fty: FTy, bindings: &mut GenBindings) -> (r: Result<FTy, TypeError>)
        ensures
            (r, final(bindings)@) == fty_merge(self, other_fty, old(bindings)@, MAX_DEPTH as nat),
    {
        self.merge_within(other_fty, bindings, MAX_DEPTH)
    }

    pub fn merge_within(self, other_fty: FTy, bindings: &mut GenBindings, d: u64) -> (r: Result<
        FTy,
        TypeError,
    >)
        ensures
            (r, final(bindings)@) == fty_merge(self, other_fty, old(bindings)@, d as nat),
        decreases d,
    {
        if d == 0 {
            return Err(TypeError::TooDeep);
        }
        let s = to_side(self);
        let o = to_side(other_fty);
        match s {
            Side::Var(gen) => match resolve_and_pop(&gen, bindings) {
                Err(e) => Err(e),
                Ok(Popped::Free(key)) => match o {
                    Side::Bnd(ob) => match insert(bindings, key, Binding::Bounded(ob)) {
                        Err(e) => Err(e),
                        Ok(_) => Ok(FTy::Gen(key)),
                    },
                    Side::Var(og) => match resolve_and_pop(&og, bindings) {
                        Err(e) => Err(e),
                        Ok(Popped::Free(okey)) => {
                            if key != okey {
                                match insert(bindings, key, Binding::Alias(okey)) {
                                    Err(e) => Err(e),
                                    Ok(_) => Ok(FTy::Gen(key)),
                                }
                            } else {
                                Ok(FTy::Gen(key))
                            }
                        },
                        Ok(Popped::Bounded(okey, ob)) => match insert(
                            bindings,
                            okey,
                            Binding::Bounded(ob),
                        ) {
                            Err(e) => Err(e),
                            Ok(_) => match insert(bindings, key, Binding::Alias(okey)) {
                                Err(e) => Err(e),
                                Ok(_) => Ok(FTy::Gen(okey)),
                            },
                        },
                    },
                },
                Ok(Popped::Bounded(key, bound)) => {
                    let mut bound = bound;
                    let r = match o {
                        Side::Bnd(ob) => bound.merge_within(ob, bindings, d - 1),
                        Side::Var(og) => match resolve_and_pop(&og, bindings) {
                            Err(e) => Err(e),
                            Ok(Popped::Free(okey)) => match insert(
                                bindings,
                                okey,
                                Binding::Alias(key),
                            ) {
                                Err(e) => Err(e),
                                Ok(_) => Ok(()),
                            },
                            Ok(Popped::Bounded(okey, ob)) => match insert(
                                bindings,
                                okey,
                                Binding::Alias(key),
                            ) {
                                Err(e) => Err(e),
                                Ok(_) => bound.merge_within(ob, bindings, d - 1),
                            },
                        },
                    };
                    match r {
                        Err(e) => Err(e),
                        Ok(_) => match insert(bindings, key, Binding::Bounded(bound)) {
                            Err(e) => Err(e),
                            Ok(_) => Ok(FTy::Gen(key)),
                        },
                    }
                },
            },
            Side::Bnd(bound) => match o {
                Side::Bnd(sb) => {
                    let mut new_bound = bound;
                    match new_bound.merge_within(sb, bindings, d - 1) {
                        Err(e) => Err(e),
                        Ok(_) => Ok(FTy::B(new_bound)),
                    }
                },
                Side::Var(g) => FTy::Gen(g).merge_within(FTy::B(bound), bindings, d - 1),
            },
        }
    }
}

impl Bound {
    pub fn merge_within(&mut self, bound: Bound, bindings: &mut GenBindings, d: u64) -> (r: Result<
        (),
        TypeError,
    >)
        ensures
            (r, *final(self), final(bindings)@) == bound_merge(
                *old(self),
                bound,
                old(bindings)@,
                d as nat,
            ),
        decreases d,
    {
        if d == 0 {
            return Err(TypeError::TooDeep);
        }
        if let Some(ty) = bound.upper {
            match self.upper_within(ty, bindings, d - 1) {
                Err(e) => return Err(e),
                Ok(_) => {},
            }
        }
        if let Some(ty) = bound.lower {
            match self.lower_within(ty, bindings, d - 1) {
                Err(e) => return Err(e),
                Ok(_) => {},
            }
        }
        self.copy().sound_within(bindings, d - 1)
    }

    pub fn upper_within(&mut self, ty: Ty, bindings: &mut GenBindings, d: u64) -> (r: Result<
        (),
        TypeError,
    >)
        ensures
            (r, *final(self), final(bindings)@) == bound_upper(
                *old(self),
                ty,
                old(bindings)@,
                d as nat,
            ),
        decreases d,
    {
        if d == 0 {
            return Err(TypeError::TooDeep);
        }
        match self.upper.take() {
            Some(ub) => match ub.glb_within(ty, bindings, d - 1) {
                Ok(g) => {
                    self.lower = Some(g);
                },
                Err(e) => return Err(e),
            },
            None => {
                self.upper = Some(ty);
            },
        }
        self.copy().sound_within(bindings, d - 1)
    }

    pub fn lower_within(&mut self, ty: Ty, bindings: &mut GenBindings, d: u64) -> (r: Result<
        (),
        TypeError,
    >)
        ensures
            (r, *final(self), final(bindings)@) == bound_lower(
                *old(self),
                ty,
                old(bindings)@,
                d as nat,
            ),
        decreases d,
    {
        if d == 0 {
            return Err(TypeError::TooDeep);
        }
        match self.lower.take() {
            Some(lb) => match lb.lub_within(ty, bindings, d - 1) {
                Ok(l) => {
                    self.lower = Some(l);
                },
                Err(e) => return Err(e),
            },
            None => {
                self.lower = Some(ty);
            },
        }
        self.copy().sound_within(bindings, d - 1)
    }

    pub fn sound_within(self, bindings: &mut GenBindings, d: u64) -> (r: Result<(), TypeError>)
        ensures
            (r, final(bindings)@) == bound_sound(self, old(bindings)@, d as nat),
        decreases d,
    {
        if d == 0 {
            return Err(TypeError::TooDeep);
        }
        if let Some(ub) = self.upper {
            if let Some(lb) = self.lower {
                let l = match ub.copy().lub_within(lb, bindings, d - 1) {
                    Ok(l) => l,
                    Err(e) => return Err(e),
                };
                let lub = match l.resolve_gen_within(bindings, d - 1) {
                    Ok(t) => t,
                    Err(e) => return Err(e),
                };
                let rub = match ub.resolve_gen_within(bindings, d - 1) {
                    Ok(t) => t,
                    Err(e) => return Err(e),
                };
                if !rub.equals(&lub) {
                    return Err(TypeError::NotSound);
                }
            }
        }
        Ok(())
    }
}

impl Ty {
    pub fn glb_within(self, wanted_ty: Ty, bindings: &mut GenBindings, d: u64) -> (r: Result<
        Ty,
        TypeError,
    >)
        ensures
            (r, final(bindings)@) == ty_glb(self, wanted_ty, old(bindings)@, d as nat),
        decreases d,
    {
        if d == 0 {
            return Err(TypeError::TooDeep);
        }
        match self {
            Ty::F(f) => match wanted_ty {
                Ty::F(other_f) => match f.meet_within(*other_f, bindings, d - 1, false) {
                    Ok(nf) => Ok(Ty::F(Box::new(nf))),
                    Err(e) => Err(e),
                },
                other => Err(TypeError::Mismatch(Ty::F(f), other)),
            },
            _ => {
                if !self.equals(&wanted_ty) {
                    Err(TypeError::Mismatch(self, wanted_ty))
                } else {
                    Ok(wanted_ty)
                }
            },
        }
    }

    pub fn lub_within(self, wanted_ty: Ty, bindings: &mut GenBindings, d: u64) -> (r: Result<
        Ty,
        TypeError,
    >)
        ensures
            (r, final(bindings)@) == ty_lub(self, wanted_ty, old(bindings)@, d as nat),
        decreases d,
    {
        if d == 0 {
            return Err(TypeError::TooDeep);
        }
        match self {
            Ty::F(f) => match wanted_ty {
                Ty::F(other_f) => match f.meet_within(*other_f, bindings, d - 1, true) {
                    Ok(nf) => Ok(Ty::F(Box::new(nf))),
                    Err(e) => Err(e),
                },
                other => Err(TypeError::Mismatch(Ty::F(f), other)),
            },
            _ => {
                if !self.equals(&wanted_ty) {
                    Err(TypeError::Mismatch(self, wanted_ty))
                } else {
                    Ok(wanted_ty)
                }
            },
        }
    }
}

impl FList {
    /// This list followed by `other`.
    pub fn append(self, other: FList) -> (r: FList)
        ensures
            r == list_append(self, other),
        decreases self,
    {
        match self {
            FList::Nil => other,
            FList::Cons(x, rest) => FList::Cons(x, Box::new(rest.append(other))),
        }
    }
}

/// Whether `a1` and `a2` together hold as many slots as `b1` and `b2` together.
fn same_total(a1: &FList, a2: &FList, b1: &FList, b2: &FList) -> (r: bool)
    ensures
        r == (list_len(*a1) + list_len(*a2) == list_len(*b1) + list_len(*b2)),
    decreases list_len(*a1) + list_len(*a2),
{
    let (l1, l2): (&FList, &FList) = match a1 {
        FList::Cons(_, r1) => (&**r1, a2),
        FList::Nil => match a2 {
            FList::Cons(_, r2) => (a1, &**r2),
            FList::Nil => {
                return !b1.is_cons() && !b2.is_cons();
            },
        },
    };
    let (k1, k2): (&FList, &FList) = match b1 {
        FList::Cons(_, r1) => (&**r1, b2),
        FList::Nil => match b2 {
            FList::Cons(_, r2) => (b1, &**r2),
            FList::Nil => {
                return false;
            },
        },
    };
    same_total(l1, l2, k1, k2)
}

/// Whether two function types have the same difference of arities.
fn arity_compatible_exec(f: &Function, o: &Function) -> (r: bool)
    ensures
        r == arity_compatible(*f, *o),
{
    same_total(&f.from, &o.to, &f.to, &o.from)
}

impl Function {
    pub fn meet_within(
        self,
        other: Function,
        bindings: &mut GenBindings,
        d: u64,
        extend: bool,
    ) -> (r: Result<Function, TypeError>)
        ensures
            (r, final(bindings)@) == fn_meet(self, other, old(bindings)@, d as nat, extend),
        decreases d,
    {
        if d == 0 {
            return Err(TypeError::TooDeep);
        }
        if !arity_compatible_exec(&self, &other) {
            return Err(TypeError::IncompatibleLength(self, other));
        }
        let (from, rem_from) = match zip_merge_within(self.from, other.from, bindings, d - 1) {
            Ok(p) => p,
            Err(e) => return Err(e),
        };
        let (to, rem_to) = match zip_merge_within(self.to, other.to, bindings, d - 1) {
            Ok(p) => p,
            Err(e) => return Err(e),
        };
        let rem = match pair_merge_within(rem_from, rem_to, bindings, d - 1) {
            Ok(p) => p,
            Err(e) => return Err(e),
        };
        if extend {
            let rem2 = rem.copy();
            Ok(Function { from: from.append(rem2), to: to.append(rem) })
        } else {
            Ok(Function { from, to })
        }
    }
}

fn zip_merge_within(a: FList, b: FList, bindings: &mut GenBindings, d: u64) -> (r: Result<
    (FList, FList),
    TypeError,
>)
    ensures
        (r, final(bindings)@) == zip_merge(a, b, old(bindings)@, d as nat),
    decreases d,
{
    if d == 0 {
        return Err(TypeError::TooDeep);
    }
    match a {
        FList::Cons(x, ar) => match b {
            FList::Cons(y, br) => {
                let v = match x.merge_within(y, bindings, d - 1) {
                    Ok(v) => v,
                    Err(e) => return Err(e),
                };
                match zip_merge_within(*ar, *br, bindings, d - 1) {
                    Err(e) => Err(e),
                    Ok((mg, rem)) => Ok((FList::Cons(v, Box::new(mg)), rem)),
                }
            },
            FList::Nil => Ok((FList::Nil, FList::Cons(x, ar))),
        },
        FList::Nil => Ok((FList::Nil, b)),
    }
}

fn pair_merge_within(a: FList, b: FList, bindings: &mut GenBindings, d: u64) -> (r: Result<
    FList,
    TypeError,
>)
    ensures
        (r, final(bindings)@) == pair_merge(a, b, old(bindings)@, d as nat),
    decreases d,
{
    if d == 0 {
        return Err(TypeError::TooDeep);
    }
    match a {
        FList::Cons(x, ar) => match b {
            FList::Cons(y, br) => {
                let v = match x.merge_within(y, bindings, d - 1) {
                    Ok(v) => v,
                    Err(e) => return Err(e),
                };
                match pair_merge_within(*ar, *br, bindings, d - 1) {
                    Err(e) => Err(e),
                    Ok(mg) => Ok(FList::Cons(v, Box::new(mg))),
                }
            },
            FList::Nil => Ok(FList::Nil),
        },
        FList::Nil => Ok(FList::Nil),
    }
}

} // verus!
