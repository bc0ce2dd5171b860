use std::collections::HashMap;
use vstd::prelude::*;

verus! {

broadcast use vstd::std_specs::hash::group_hash_axioms;

/// A type variable. Each one is a distinct integer handed out by a
/// counter, so two type variables are the same exactly when their numbers are.
pub type Gen = u64;

/// A concrete type of the stack language.
#[derive(Debug, PartialEq, Eq)]
pub enum Ty {
    Bool,
    Int,
    F(Box<Function>),
}

/// A function type: what it takes from the top of the stack and what it leaves there.
#[derive(Debug, PartialEq, Eq)]
pub struct Function {
    pub from: FList,
    pub to: FList,
}

/// A finite list of stack slots, first slot first.
#[derive(Debug, PartialEq, Eq)]
pub enum FList {
    Nil,
    Cons(FTy, Box<FList>),
}

/// A stack slot: a bounded type, a concrete type or a type variable.
#[derive(Debug, PartialEq, Eq)]
pub enum FTy {
    B(Bound),
    T(Ty),
    Gen(Gen),
}

/// An interval of types, each end optional.
#[derive(Debug, PartialEq, Eq)]
pub struct Bound {
    pub upper: Option<Ty>,
    pub lower: Option<Ty>,
}

/// What a type variable is bound to: another variable, or a bound.
#[derive(Debug, PartialEq, Eq)]
pub enum Binding {
    Alias(Gen),
    Bounded(Bound),
}

/// The substitution built while checking one application.
pub type GenBindings = HashMap<Gen, Binding>;

/// Why a program or a type operation was refused.
#[derive(Debug, PartialEq, Eq)]
pub enum TypeError {
    /// A value was taken from an empty stack.
    EmptyStack,
    /// The top of the stack was expected to hold a function.
    NotAFunction,
    /// A function definition was closed outside any definition.
    NotInFunction,
    /// An identifier has no entry in the store.
    UnknownIdentifier,
    /// A variable would be bound to itself or to a bound that mentions it:
    /// the variable and what it would be bound to.
    ContainsItself(Gen, Binding),
    /// Following the aliases of a variable went round in a circle.
    ResolvingLooped(Gen),
    /// A bound's lower end does not lie below its upper end.
    NotSound,
    /// A bound without lower end was asked for its type.
    NoLowerBound,
    /// A type variable was asked for a concrete type.
    GenericType,
    /// Two types of different shape met: these two.
    Mismatch(Ty, Ty),
    /// Two function types whose arities cannot be lined up met: these two.
    IncompatibleLength(Function, Function),
    /// A type was nested deeper than type checking follows.
    TooDeep,
    /// The supply of fresh type variables ran out.
    OutOfGenerics,
    /// A definition's input slot resolved to a bound with an upper end.
    UpperBoundInDefinition,
    /// A definition's input slot resolved to a bound without lower end.
    MissingLowerBound,
    /// A finished definition kept a slot without a concrete type.
    UnresolvedSlot,
    /// An arity annotation whose two numbers do not add up within `u32`.
    ArityOverflow,
}

/// The errors that mark a state from which type checking cannot go on.
pub open spec fn is_abort(e: TypeError) -> bool {
    ||| e is UpperBoundInDefinition
    ||| e is MissingLowerBound
    ||| e is UnresolvedSlot
    ||| e is ArityOverflow
}

// ----------------------------------------------------------------------
// Occurrence of a type variable
// ----------------------------------------------------------------------

pub open spec fn ty_contains(t: Ty, g: Gen) -> bool
    decreases t,
{
    match t {
        Ty::F(f) => fn_contains(*f, g),
        _ => false,
    }
}

pub open spec fn fn_contains(f: Function, g: Gen) -> bool
    decreases f,
{
    list_contains(f.from, g) || list_contains(f.to, g)
}

pub open spec fn list_contains(l: FList, g: Gen) -> bool
    decreases l,
{
    match l {
        FList::Nil => false,
        FList::Cons(x, rest) => fty_contains(x, g) || list_contains(*rest, g),
    }
}

pub open spec fn fty_contains(x: FTy, g: Gen) -> bool
    decreases x,
{
    match x {
        FTy::Gen(h) => h == g,
        FTy::B(b) => bound_contains(b, g),
        FTy::T(t) => ty_contains(t, g),
    }
}

pub open spec fn bound_contains(b: Bound, g: Gen) -> bool
    decreases b,
{
    (match b.upper {
        Some(u) => ty_contains(u, g),
        None => false,
    }) || (match b.lower {
        Some(l) => ty_contains(l, g),
        None => false,
    })
}

impl Ty {
    pub fn contains(&self, gen: &Gen) -> (r: bool)
        ensures
            r == ty_contains(*self, *gen),
        decreases self,
    {
        match self {
            Ty::F(f) => f.contains(gen),
            _ => false,
        }
    }

    /// A copy of the type.
    pub fn copy(&self) -> (r: Ty)
        ensures
            r == *self,
        decreases self,
    {
        match self {
            Ty::Bool => Ty::Bool,
            Ty::Int => Ty::Int,
            Ty::F(f) => Ty::F(Box::new(f.copy())),
        }
    }

    /// Structural equality of two types.
    pub fn equals(&self, other: &Ty) -> (r: bool)
        ensures
            r == (*self == *other),
        decreases self,
    {
        match (self, other) {
            (Ty::Bool, Ty::Bool) => true,
            (Ty::Int, Ty::Int) => true,
            (Ty::F(a), Ty::F(b)) => a.equals(b),
            _ => false,
        }
    }
}

impl Function {
    pub fn contains(&self, gen: &Gen) -> (r: bool)
        ensures
            r == fn_contains(*self, *gen),
        decreases self,
    {
        self.from.contains(gen) || self.to.contains(gen)
    }

    pub fn copy(&self) -> (r: Function)
        ensures
            r == *self,
        decreases self,
    {
        Function { from: self.from.copy(), to: self.to.copy() }
    }

    pub fn equals(&self, other: &Function) -> (r: bool)
        ensures
            r == (*self == *other),
        decreases self,
    {
        self.from.equals(&other.from) && self.to.equals(&other.to)
    }
}

impl FList {
    pub fn contains(&self, gen: &Gen) -> (r: bool)
        ensures
            r == list_contains(*self, *gen),
        decreases self,
    {
        match self {
            FList::Nil => false,
            FList::Cons(x, rest) => x.contains(gen) || rest.contains(gen),
        }
    }

    pub fn copy(&self) -> (r: FList)
        ensures
            r == *self,
        decreases self,
    {
        match self {
            FList::Nil => FList::Nil,
            FList::Cons(x, rest) => FList::Cons(x.copy(), Box::new(rest.copy())),
        }
    }

    pub fn equals(&self, other: &FList) -> (r: bool)
        ensures
            r == (*self == *other),
        decreases self,
    {
        match (self, other) {
            (FList::Nil, FList::Nil) => true,
            (FList::Cons(x, xs), FList::Cons(y, ys)) => x.equals(y) && xs.equals(ys),
            _ => false,
        }
    }
}

impl FTy {
    pub fn contains(&self, gen: &Gen) -> (r: bool)
        ensures
            r == fty_contains(*self, *gen),
        decreases self,
    {
        match self {
            FTy::Gen(g) => *g == *gen,
            FTy::B(b) => b.contains(gen),
            FTy::T(ty) => ty.contains(gen),
        }
    }

    pub fn copy(&self) -> (r: FTy)
        ensures
            r == *self,
        decreases self,
    {
        match self {
            FTy::Gen(g) => FTy::Gen(*g),
            FTy::B(b) => FTy::B(b.copy()),
            FTy::T(ty) => FTy::T(ty.copy()),
        }
    }

    pub fn equals(&self, other: &FTy) -> (r: bool)
        ensures
            r == (*self == *other),
        decreases self,
    {
        match (self, other) {
            (FTy::Gen(a), FTy::Gen(b)) => *a == *b,
            (FTy::B(a), FTy::B(b)) => a.equals(b),
            (FTy::T(a), FTy::T(b)) => a.equals(b),
            _ => false,
        }
    }
}

impl Bound {
    pub(crate) fn contains(&self, gen: &Gen) -> (r: bool)
        ensures
            r == bound_contains(*self, *gen),
        decreases self,
    {
        (match &self.upper {
            Some(u) => u.contains(gen),
            None => false,
        }) || (match &self.lower {
            Some(l) => l.contains(gen),
            None => false,
        })
    }

    pub fn copy(&self) -> (r: Bound)
        ensures
            r == *self,
        decreases self,
    {
        let upper = match &self.upper {
            Some(u) => Some(u.copy()),
            None => None,
        };
        let lower = match &self.lower {
            Some(l) => Some(l.copy()),
            None => None,
        };
        Bound { upper, lower }
    }

    pub fn equals(&self, other: &Bound) -> (r: bool)
        ensures
            r == (*self == *other),
        decreases self,
    {
        let up = match (&self.upper, &other.upper) {
            (Some(a), Some(b)) => a.equals(b),
            (None, None) => true,
            _ => false,
        };
        let lo = match (&self.lower, &other.lower) {
            (Some(a), Some(b)) => a.equals(b),
            (None, None) => true,
            _ => false,
        };
        up && lo
    }
}

impl Binding {
    pub fn copy(&self) -> (r: Binding)
        ensures
            r == *self,
    {
        match self {
            Binding::Alias(g) => Binding::Alias(*g),
            Binding::Bounded(b) => Binding::Bounded(b.copy()),
        }
    }
}

// ----------------------------------------------------------------------
// Constructors and accessors
// ----------------------------------------------------------------------

/// The slots of a list, first slot first.
pub open spec fn list_seq(l: FList) -> Seq<FTy>
    decreases l,
{
    match l {
        FList::Nil => Seq::empty(),
        FList::Cons(x, rest) => seq![x] + list_seq(*rest),
    }
}

pub proof fn lemma_list_seq_injective(a: FList, b: FList)
    requires
        list_seq(a) == list_seq(b),
    ensures
        a == b,
    decreases a,
{
    match a {
        FList::Nil => {
            if b is Cons {
                assert(list_seq(b).len() > 0);
            }
        },
        FList::Cons(x, ra) => {
            assert(list_seq(a)[0] == x);
            match b {
                FList::Nil => {
                    assert(list_seq(a).len() > 0);
                },
                FList::Cons(y, rb) => {
                    assert(list_seq(b)[0] == y);
                    assert(list_seq(*ra) =~= list_seq(a).drop_first());
                    assert(list_seq(*rb) =~= list_seq(b).drop_first());
                    lemma_list_seq_injective(*ra, *rb);
                },
            }
        },
    }
}

impl FList {
    /// The list holding the elements of `v` in order.
    pub fn from_vec(v: Vec<FTy>) -> (r: FList)
        ensures
            list_seq(r) == v@,
    {
        let ghost orig = v@;
        let mut v = v;
        let mut l = FList::Nil;
        while v.len() > 0
            invariant
                v@ + list_seq(l) == orig,
            decreases v.len(),
        {
            let ghost before = v@;
            let x = v.pop().unwrap();
            assert(before == v@.push(x));
            assert(list_seq(FList::Cons(x, Box::new(l))) == seq![x] + list_seq(l));
            assert(v@ + (seq![x] + list_seq(l)) =~= before + list_seq(l));
            l = FList::Cons(x, Box::new(l));
        }
        assert(v@ + list_seq(l) =~= list_seq(l));
        l
    }

    /// A vector holding copies of the slots, in order.
    pub fn to_vec(&self) -> (r: Vec<FTy>)
        ensures
            r@ == list_seq(*self),
    {
        let mut v: Vec<FTy> = Vec::new();
        let mut cur: &FList = self;
        while cur.is_cons()
            invariant
                v@ + list_seq(*cur) == list_seq(*self),
            decreases list_seq(*cur).len(),
        {
            match cur {
                FList::Cons(x, rest) => {
                    let ghost before = v@;
                    v.push(x.copy());
                    assert(v@ + list_seq(**rest) =~= before + list_seq(*cur));
                    cur = rest;
                },
                FList::Nil => {},
            }
        }
        assert(v@ + list_seq(*cur) =~= v@);
        v
    }

    pub fn is_cons(&self) -> (r: bool)
        ensures
            r == (*self is Cons),
    {
        match self {
            FList::Cons(..) => true,
            FList::Nil => false,
        }
    }
}

impl Function {
    /// The function type taking `from` and leaving `to`.
    pub fn new(from: Vec<FTy>, to: Vec<FTy>) -> (r: Function)
        ensures
            list_seq(r.from) == from@,
            list_seq(r.to) == to@,
    {
        Function { from: FList::from_vec(from), to: FList::from_vec(to) }
    }

    /// The function type taking copies of `from` and leaving copies of `to`.
    pub fn from_fty(from: &[FTy], to: &[FTy]) -> (r: Function)
        ensures
            list_seq(r.from) == from@,
            list_seq(r.to) == to@,
    {
        Function::new(copy_slice(from), copy_slice(to))
    }

    /// The slots the function takes, in stack order.
    pub fn from(&self) -> (r: Vec<FTy>)
        ensures
            r@ == list_seq(self.from),
    {
        self.from.to_vec()
    }

    /// The slots the function leaves, in stack order.
    pub fn to(&self) -> (r: Vec<FTy>)
        ensures
            r@ == list_seq(self.to),
    {
        self.to.to_vec()
    }
}

/// Copies of the slots of `s`.
pub fn copy_slice(s: &[FTy]) -> (r: Vec<FTy>)
    ensures
        r@ == s@,
{
    let mut v: Vec<FTy> = Vec::new();
    let mut i: usize = 0;
    while i < s.len()
        invariant
            i <= s@.len(),
            v@ == s@.subrange(0, i as int),
        decreases s@.len() - i,
    {
        v.push(s[i].copy());
        i = i + 1;
        assert(v@ =~= s@.subrange(0, i as int));
    }
    assert(s@.subrange(0, s@.len() as int) =~= s@);
    v
}

impl Bound {
    /// The bound whose lower end is `ty` and which has no upper end.
    pub fn from_lower(ty: Ty) -> (r: Bound)
        ensures
            r == (Bound { upper: None, lower: Some(ty) }),
    {
        Bound { upper: None, lower: Some(ty) }
    }

    /// The lower end of the bound.
    pub fn as_ty(self) -> (r: Result<Ty, TypeError>)
        ensures
            r == bound_as_ty(self),
    {
        match self.lower {
            Some(ty) => Ok(ty),
            None => Err(TypeError::NoLowerBound),
        }
    }
}

pub open spec fn bound_as_ty(b: Bound) -> Result<Ty, TypeError> {
    match b.lower {
        Some(ty) => Ok(ty),
        None => Err(TypeError::NoLowerBound),
    }
}

pub open spec fn fty_as_ty(x: FTy) -> Result<Ty, TypeError> {
    match x {
        FTy::B(b) => bound_as_ty(b),
        FTy::T(ty) => Ok(ty),
        FTy::Gen(_) => Err(TypeError::GenericType),
    }
}

impl From<Ty> for FTy {
    fn from(value: Ty) -> (r: FTy) {
        FTy::T(value)
    }
}

impl vstd::std_specs::convert::FromSpecImpl<Ty> for FTy {
    open spec fn obeys_from_spec() -> bool {
        true
    }

    open spec fn from_spec(value: Ty) -> FTy {
        FTy::T(value)
    }
}

impl FTy {
    /// The concrete type of the slot: a bound's lower end, or the type itself.
    pub fn as_ty(self) -> (r: Result<Ty, TypeError>)
        ensures
            r == fty_as_ty(self),
    {
        match self {
            FTy::B(bound) => bound.as_ty(),
            FTy::T(ty) => Ok(ty),
            FTy::Gen(_) => Err(TypeError::GenericType),
        }
    }
}


} // verus!
