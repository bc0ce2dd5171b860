use crate::env::{name_from, Env, Name};
use crate::types::{list_seq, Bound, FList, FTy, Function, Gen, Ty, TypeError};
use vstd::prelude::*;

verus! {

/// The type of a stored function: a function type whose variables
/// `0..params` are renamed to fresh ones each time it is used.
#[derive(Debug, PartialEq, Eq)]
pub struct Scheme {
    pub params: u64,
    pub body: Function,
}

/// The functions known by name.
pub type Store = Env<Scheme>;

// ----------------------------------------------------------------------
// Renaming the variables of a scheme
// ----------------------------------------------------------------------

pub open spec fn rename_gen(g: Gen, n: u64, base: Gen) -> Gen {
    if g < n {
        (base + g) as u64
    } else {
        g
    }
}

pub open spec fn ty_rename(t: Ty, n: u64, base: Gen) -> Ty
    decreases t,
{
    match t {
        Ty::F(f) => Ty::F(Box::new(fn_rename(*f, n, base))),
        _ => t,
    }
}

pub open spec fn fn_rename(f: Function, n: u64, base: Gen) -> Function
    decreases f,
{
    Function { from: list_rename(f.from, n, base), to: list_rename(f.to, n, base) }
}

pub open spec fn list_rename(l: FList, n: u64, base: Gen) -> FList
    decreases l,
{
    match l {
        FList::Nil => FList::Nil,
        FList::Cons(x, rest) => FList::Cons(
            fty_rename(x, n, base),
            Box::new(list_rename(*rest, n, base)),
        ),
    }
}

pub open spec fn fty_rename(x: FTy, n: u64, base: Gen) -> FTy
    decreases x,
{
    match x {
        FTy::Gen(g) => FTy::Gen(rename_gen(g, n, base)),
        FTy::B(b) => FTy::B(bound_rename(b, n, base)),
        FTy::T(t) => FTy::T(ty_rename(t, n, base)),
    }
}

pub open spec fn bound_rename(b: Bound, n: u64, base: Gen) -> Bound
    decreases b,
{
    Bound {
        upper: match b.upper {
            Some(u) => Some(ty_rename(u, n, base)),
            None => None,
        },
        lower: match b.lower {
            Some(l) => Some(ty_rename(l, n, base)),
            None => None,
        },
    }
}

fn rename_ty(t: &Ty, n: u64, base: Gen) -> (r: Ty)
    requires
        base + n <= u64::MAX,
    ensures
        r == ty_rename(*t, n, base),
    decreases t,
{
    match t {
        Ty::F(f) => Ty::F(Box::new(rename_fn(f, n, base))),
        Ty::Bool => Ty::Bool,
        Ty::Int => Ty::Int,
    }
}

fn rename_fn(f: &Function, n: u64, base: Gen) -> (r: Function)
    requires
        base + n <= u64::MAX,
    ensures
        r == fn_rename(*f, n, base),
    decreases f,
{
    Function { from: rename_list(&f.from, n, base), to: rename_list(&f.to, n, base) }
}

fn rename_list(l: &FList, n: u64, base: Gen) -> (r: FList)
    requires
        base + n <= u64::MAX,
    ensures
        r == list_rename(*l, n, base),
    decreases l,
{
    match l {
        FList::Nil => FList::Nil,
        FList::Cons(x, rest) => FList::Cons(
            rename_fty(x, n, base),
            Box::new(rename_list(rest, n, base)),
        ),
    }
}

fn rename_fty(x: &FTy, n: u64, base: Gen) -> (r: FTy)
    requires
        base + n <= u64::MAX,
    ensures
        r == fty_rename(*x, n, base),
    decreases x,
{
    match x {
        FTy::Gen(g) => FTy::Gen(
            if *g < n {
                base + *g
            } else {
                *g
            },
        ),
        FTy::B(b) => FTy::B(rename_bound(b, n, base)),
        FTy::T(t) => FTy::T(rename_ty(t, n, base)),
    }
}

fn rename_bound(b: &Bound, n: u64, base: Gen) -> (r: Bound)
    requires
        base + n <= u64::MAX,
    ensures
        r == bound_rename(*b, n, base),
    decreases b,
{
    Bound {
        upper: match &b.upper {
            Some(u) => Some(rename_ty(u, n, base)),
            None => None,
        },
        lower: match &b.lower {
            Some(l) => Some(rename_ty(l, n, base)),
            None => None,
        },
    }
}

/// A use of `sc` when the next fresh variable is `next`: the function type,
/// with fresh variables where the scheme has parameters, and the next fresh
/// variable after it.
pub open spec fn instantiate_spec(sc: Scheme, next: Gen) -> Result<(Function, Gen), TypeError> {
    if sc.params == 0 {
        Ok((sc.body, next))
    } else if next + sc.params > u64::MAX {
        Err(TypeError::OutOfGenerics)
    } else {
        Ok((fn_rename(sc.body, sc.params, next), (next + sc.params) as u64))
    }
}

impl Scheme {
    /// The type of a stored function that is the same at every use.
    pub fn fixed(body: Function) -> (r: Scheme)
        ensures
            r == (Scheme { params: 0, body }),
    {
        Scheme { params: 0, body }
    }

    /// The function type of one use of the scheme.
    pub fn instantiate(&self, next_gen: &mut Gen) -> (r: Result<Function, TypeError>)
        ensures
            match instantiate_spec(*self, *old(next_gen)) {
                Ok((f, n)) => r == Ok::<Function, TypeError>(f) && *final(next_gen) == n,
                Err(e) => r == Err::<Function, TypeError>(e) && *final(next_gen) == *old(next_gen),
            },
    {
        if self.params == 0 {
            return Ok(self.body.copy());
        }
        if *next_gen > u64::MAX - self.params {
            return Err(TypeError::OutOfGenerics);
        }
        let base = *next_gen;
        *next_gen = base + self.params;
        Ok(rename_fn(&self.body, self.params, base))
    }

    pub fn copy(&self) -> (r: Scheme)
        ensures
            r == *self,
    {
        Scheme { params: self.params, body: self.body.copy() }
    }
}

impl Env<Scheme> {
    /// A copy of the store.
    pub fn copy(&self) -> (r: Env<Scheme>)
        ensures
            r == *self,
        decreases self,
    {
        match self {
            Env::Empty => Env::Empty,
            Env::Entry(k, v, rest) => Env::Entry(k.copy(), v.copy(), Box::new(rest.copy())),
        }
    }
}

// ----------------------------------------------------------------------
// The built-in functions
// ----------------------------------------------------------------------

/// The list holding the elements of `s`, first element first.
pub open spec fn flist(s: Seq<FTy>) -> FList
    decreases s.len(),
{
    if s.len() == 0 {
        FList::Nil
    } else {
        FList::Cons(s[0], Box::new(flist(s.drop_first())))
    }
}

pub proof fn lemma_flist(s: Seq<FTy>, l: FList)
    requires
        list_seq(l) == s,
    ensures
        l == flist(s),
    decreases s.len(),
{
    match l {
        FList::Nil => {},
        FList::Cons(x, rest) => {
            assert(list_seq(*rest) =~= s.drop_first());
            lemma_flist(s.drop_first(), *rest);
        },
    }
}

/// The scheme with `params` parameters taking `from` and leaving `to`.
pub open spec fn scheme(params: u64, from: Seq<FTy>, to: Seq<FTy>) -> Scheme {
    Scheme { params, body: Function { from: flist(from), to: flist(to) } }
}

/// The built-in functions with their types; `FTy::Gen(0)` is the parameter.
pub open spec fn builtin_entries() -> Seq<(Seq<char>, Scheme)> {
    seq![
        ("'"@, scheme(0, seq![], seq![])),
        ("?"@, scheme(1, seq![FTy::T(Ty::Bool), FTy::Gen(0), FTy::Gen(0)], seq![FTy::Gen(0)])),
        ("id"@, scheme(1, seq![FTy::Gen(0)], seq![FTy::Gen(0)])),
        ("dup"@, scheme(1, seq![FTy::Gen(0)], seq![FTy::Gen(0), FTy::Gen(0)])),
        ("drop"@, scheme(1, seq![FTy::Gen(0)], seq![])),
        ("="@, scheme(1, seq![FTy::Gen(0), FTy::Gen(0)], seq![FTy::T(Ty::Bool)])),
        ("add"@, scheme(0, seq![FTy::T(Ty::Int), FTy::T(Ty::Int)], seq![FTy::T(Ty::Int)])),
        ("sub"@, scheme(0, seq![FTy::T(Ty::Int), FTy::T(Ty::Int)], seq![FTy::T(Ty::Int)])),
    ]
}

/// The store holding `entries`, the first one newest.
pub open spec fn env_of(entries: Seq<(Seq<char>, Scheme)>) -> Store
    decreases entries.len(),
{
    if entries.len() == 0 {
        Env::Empty
    } else {
        Env::Entry(
            name_from(entries[0].0),
            entries[0].1,
            Box::new(env_of(entries.drop_first())),
        )
    }
}

/// The store every program starts with.
pub open spec fn initial_store() -> Store {
    env_of(builtin_entries())
}

fn entry(name: &str, params: u64, from: Vec<FTy>, to: Vec<FTy>, rest: Store) -> (r: Store)
    ensures
        r == Env::Entry(name_from(name@), scheme(params, from@, to@), Box::new(rest)),
{
    let f = Function::new(from, to);
    proof {
        lemma_flist(from@, f.from);
        lemma_flist(to@, f.to);
    }
    Env::Entry(Name::from_str(name), Scheme { params, body: f }, Box::new(rest))
}

/// The functions every program starts with.
pub fn initial_context() -> (r: Store)
    ensures
        r == initial_store(),
{
    let st0 = Env::Empty;
    let from1 = vec![FTy::T(Ty::Int), FTy::T(Ty::Int)];
    assert(from1@ =~= seq![FTy::T(Ty::Int), FTy::T(Ty::Int)]);
    let to1 = vec![FTy::T(Ty::Int)];
    assert(to1@ =~= seq![FTy::T(Ty::Int)]);
    let st1 = entry("sub", 0, from1, to1, st0);
    let from2 = vec![FTy::T(Ty::Int), FTy::T(Ty::Int)];
    assert(from2@ =~= seq![FTy::T(Ty::Int), FTy::T(Ty::Int)]);
    let to2 = vec![FTy::T(Ty::Int)];
    assert(to2@ =~= seq![FTy::T(Ty::Int)]);
    let st2 = entry("add", 0, from2, to2, st1);
    let from3 = vec![FTy::Gen(0), FTy::Gen(0)];
    assert(from3@ =~= seq![FTy::Gen(0), FTy::Gen(0)]);
    let to3 = vec![FTy::T(Ty::Bool)];
    assert(to3@ =~= seq![FTy::T(Ty::Bool)]);
    let st3 = entry("=", 1, from3, to3, st2);
    let from4 = vec![FTy::Gen(0)];
    assert(from4@ =~= seq![FTy::Gen(0)]);
    let to4 = vec![];
    assert(to4@ =~= seq![]);
    let st4 = entry("drop", 1, from4, to4, st3);
    let from5 = vec![FTy::Gen(0)];
    assert(from5@ =~= seq![FTy::Gen(0)]);
    let to5 = vec![FTy::Gen(0), FTy::Gen(0)];
    assert(to5@ =~= seq![FTy::Gen(0), FTy::Gen(0)]);
    let st5 = entry("dup", 1, from5, to5, st4);
    let from6 = vec![FTy::Gen(0)];
    assert(from6@ =~= seq![FTy::Gen(0)]);
    let to6 = vec![FTy::Gen(0)];
    assert(to6@ =~= seq![FTy::Gen(0)]);
    let st6 = entry("id", 1, from6, to6, st5);
    let from7 = vec![FTy::T(Ty::Bool), FTy::Gen(0), FTy::Gen(0)];
    assert(from7@ =~= seq![FTy::T(Ty::Bool), FTy::Gen(0), FTy::Gen(0)]);
    let to7 = vec![FTy::Gen(0)];
    assert(to7@ =~= seq![FTy::Gen(0)]);
    let st7 = entry("?", 1, from7, to7, st6);
    let from8 = vec![];
    assert(from8@ =~= seq![]);
    let to8 = vec![];
    assert(to8@ =~= seq![]);
    let st8 = entry("'", 0, from8, to8, st7);
    proof {
        reveal_with_fuel(env_of, 9);
        assert(builtin_entries().len() == 8);
        assert(builtin_entries().skip(0).drop_first() =~= builtin_entries().skip(1));
        assert(builtin_entries().skip(1).drop_first() =~= builtin_entries().skip(2));
        assert(builtin_entries().skip(2).drop_first() =~= builtin_entries().skip(3));
        assert(builtin_entries().skip(3).drop_first() =~= builtin_entries().skip(4));
        assert(builtin_entries().skip(4).drop_first() =~= builtin_entries().skip(5));
        assert(builtin_entries().skip(5).drop_first() =~= builtin_entries().skip(6));
        assert(builtin_entries().skip(6).drop_first() =~= builtin_entries().skip(7));
        assert(builtin_entries().skip(7).drop_first() =~= builtin_entries().skip(8));
    }
    st8
}

} // verus!
