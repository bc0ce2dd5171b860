use crate::bindings::{resolve, resolve_spec};
use crate::types::{Bound, FList, FTy, Function, GenBindings, Gen, Ty, TypeError};
use vstd::prelude::*;

verus! {

/// How many nested calls the type operations may make: each level of
/// nesting of a type, each slot of a function type and each binding followed
/// takes one. The count is the whole range of `u64`: a machine runs out of
/// stack for nested calls long before it runs out of this count, so `TooDeep`
/// marks no limit of the type operations themselves.
pub const MAX_DEPTH: u64 = 0xffff_ffff_ffff_ffff;

// ----------------------------------------------------------------------
// Substituting the bindings into a type
// ----------------------------------------------------------------------

pub open spec fn ty_rg(t: Ty, m: Map<Gen, crate::types::Binding>, d: nat) -> Result<Ty, TypeError>
    decreases d,
{
    if d == 0 {
        Err(TypeError::TooDeep)
    } else {
        match t {
            Ty::F(f) => match fn_rg(*f, m, (d - 1) as nat) {
                Ok(nf) => Ok(Ty::F(Box::new(nf))),
                Err(e) => Err(e),
            },
            _ => Ok(t),
        }
    }
}

pub open spec fn fn_rg(f: Function, m: Map<Gen, crate::types::Binding>, d: nat) -> Result<
    Function,
    TypeError,
>
    decreases d,
{
    if d == 0 {
        Err(TypeError::TooDeep)
    } else {
        match list_rg(f.from, m, (d - 1) as nat) {
            Err(e) => Err(e),
            Ok(from) => match list_rg(f.to, m, (d - 1) as nat) {
                Err(e) => Err(e),
                Ok(to) => Ok(Function { from, to }),
            },
        }
    }
}

pub open spec fn list_rg(l: FList, m: Map<Gen, crate::types::Binding>, d: nat) -> Result<
    FList,
    TypeError,
>
    decreases d,
{
    if d == 0 {
        Err(TypeError::TooDeep)
    } else {
        match l {
            FList::Nil => Ok(FList::Nil),
            FList::Cons(x, rest) => match fty_rg(x, m, (d - 1) as nat) {
                Err(e) => Err(e),
                Ok(nx) => match list_rg(*rest, m, (d - 1) as nat) {
                    Err(e) => Err(e),
                    Ok(nrest) => Ok(FList::Cons(nx, Box::new(nrest))),
                },
            },
        }
    }
}

pub open spec fn fty_rg(x: FTy, m: Map<Gen, crate::types::Binding>, d: nat) -> Result<
    FTy,
    TypeError,
>
    decreases d,
{
    if d == 0 {
        Err(TypeError::TooDeep)
    } else {
        let r = match x {
            FTy::Gen(g) => resolve_spec(g, m),
            _ => Ok(x),
        };
        match r {
            Err(e) => Err(e),
            Ok(FTy::B(b)) => match bound_rg(b, m, (d - 1) as nat) {
                Ok(nb) => Ok(FTy::B(nb)),
                Err(e) => Err(e),
            },
            Ok(FTy::T(t)) => match ty_rg(t, m, (d - 1) as nat) {
                Ok(nt) => Ok(FTy::T(nt)),
                Err(e) => Err(e),
            },
            Ok(FTy::Gen(k)) => Ok(FTy::Gen(k)),
        }
    }
}

pub open spec fn bound_rg(b: Bound, m: Map<Gen, crate::types::Binding>, d: nat) -> Result<
    Bound,
    TypeError,
>
    decreases d,
{
    if d == 0 {
        Err(TypeError::TooDeep)
    } else {
        let upper = match b.upper {
            Some(u) => match ty_rg(u, m, (d - 1) as nat) {
                Ok(v) => Ok(Some(v)),
                Err(e) => Err(e),
            },
            None => Ok(None),
        };
        match upper {
            Err(e) => Err(e),
            Ok(upper) => match b.lower {
                Some(l) => match ty_rg(l, m, (d - 1) as nat) {
                    Ok(v) => Ok(Bound { upper, lower: Some(v) }),
                    Err(e) => Err(e),
                },
                None => Ok(Bound { upper, lower: None }),
            },
        }
    }
}

impl Ty {
    /// Replaces the variables in the type by what the bindings give them.
    pub fn resolve_gen(self, bindings: &GenBindings) -> (r: Result<Ty, TypeError>)
        ensures
            r == ty_rg(self, bindings@, MAX_DEPTH as nat),
    {
        self.resolve_gen_within(bindings, MAX_DEPTH)
    }

    pub fn resolve_gen_within(self, bindings: &GenBindings, d: u64) -> (r: Result<Ty, TypeError>)
        ensures
            r == ty_rg(self, bindings@, d as nat),
        decreases d,
    {
        if d == 0 {
            return Err(TypeError::TooDeep);
        }
        match self {
            Ty::F(f) => match f.resolve_gen_within(bindings, d - 1) {
                Ok(nf) => Ok(Ty::F(Box::new(nf))),
                Err(e) => Err(e),
            },
            _ => Ok(self),
        }
    }
}

impl Function {
    pub fn resolve_gen_within(self, bindings: &GenBindings, d: u64) -> (r: Result<
        Function,
        TypeError,
    >)
        ensures
            r == fn_rg(self, bindings@, d as nat),
        decreases d,
    {
        if d == 0 {
            return Err(TypeError::TooDeep);
        }
        let from = match self.from.resolve_gen_within(bindings, d - 1) {
            Ok(v) => v,
            Err(e) => return Err(e),
        };
        let to = match self.to.resolve_gen_within(bindings, d - 1) {
            Ok(v) => v,
            Err(e) => return Err(e),
        };
        Ok(Function { from, to })
    }
}

impl FList {
    pub fn resolve_gen_within(self, bindings: &GenBindings, d: u64) -> (r: Result<
        FList,
        TypeError,
    >)
        ensures
            r == list_rg(self, bindings@, d as nat),
        decreases d,
    {
        if d == 0 {
            return Err(TypeError::TooDeep);
        }
        match self {
            FList::Nil => Ok(FList::Nil),
            FList::Cons(x, rest) => {
                let nx = match x.resolve_gen_within(bindings, d - 1) {
                    Ok(v) => v,
                    Err(e) => return Err(e),
                };
                let nrest = match rest.resolve_gen_within(bindings, d - 1) {
                    Ok(v) => v,
                    Err(e) => return Err(e),
                };
                Ok(FList::Cons(nx, Box::new(nrest)))
            },
        }
    }
}

impl FTy {
    /// Replaces the variables in the slot by what the bindings give them.
    pub fn resolve_gen(self, bindings: &GenBindings) -> (r: Result<FTy, TypeError>)
        ensures
            r == fty_rg(self, bindings@, MAX_DEPTH as nat),
    {
        self.resolve_gen_within(bindings, MAX_DEPTH)
    }

    pub fn resolve_gen_within(self, bindings: &GenBindings, d: u64) -> (r: Result<FTy, TypeError>)
        ensures
            r == fty_rg(self, bindings@, d as nat),
        decreases d,
    {
        if d == 0 {
            return Err(TypeError::TooDeep);
        }
        let resolved = match self {
            FTy::Gen(g) => resolve(&g, bindings),
            _ => Ok(self),
        };
        match resolved {
            Err(e) => Err(e),
            Ok(FTy::B(b)) => match b.resolve_gen_within(bindings, d - 1) {
                Ok(nb) => Ok(FTy::B(nb)),
                Err(e) => Err(e),
            },
            Ok(FTy::T(t)) => match t.resolve_gen_within(bindings, d - 1) {
                Ok(nt) => Ok(FTy::T(nt)),
                Err(e) => Err(e),
            },
            Ok(FTy::Gen(k)) => Ok(FTy::Gen(k)),
        }
    }
}

impl Bound {
    /// Replaces the variables in both ends of the bound.
    pub fn resolve_gen(self, bindings: &GenBindings) -> (r: Result<Bound, TypeError>)
        ensures
            r == bound_rg(self, bindings@, MAX_DEPTH as nat),
    {
        self.resolve_gen_within(bindings, MAX_DEPTH)
    }

    pub fn resolve_gen_within(self, bindings: &GenBindings, d: u64) -> (r: Result<
        Bound,
        TypeError,
    >)
        ensures
            r == bound_rg(self, bindings@, d as nat),
        decreases d,
    {
        if d == 0 {
            return Err(TypeError::TooDeep);
        }
        let upper = match self.upper {
            Some(u) => match u.resolve_gen_within(bindings, d - 1) {
                Ok(v) => Some(v),
                Err(e) => return Err(e),
            },
            None => None,
        };
        let lower = match self.lower {
            Some(l) => match l.resolve_gen_within(bindings, d - 1) {
                Ok(v) => Some(v),
                Err(e) => return Err(e),
            },
            None => None,
        };
        Ok(Bound { upper, lower })
    }
}

} // verus!
