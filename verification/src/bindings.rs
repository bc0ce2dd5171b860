use crate::types::{
    bound_contains, Binding, Bound, FTy, Gen, GenBindings, TypeError,
};
use vstd::prelude::*;

verus! {

broadcast use vstd::std_specs::hash::group_hash_axioms;

/// Whether binding `key` to `val` would make `key` refer to itself.
pub open spec fn binding_mentions(val: Binding, key: Gen) -> bool {
    match val {
        Binding::Alias(g) => g == key,
        Binding::Bounded(b) => bound_contains(b, key),
    }
}

/// Binding `key` to `val`: refused when `val` mentions `key`, otherwise the
/// map gets the entry and the entry it replaces comes back.
pub open spec fn insert_spec(m: Map<Gen, Binding>, key: Gen, val: Binding) -> (Result<
    Option<Binding>,
    TypeError,
>, Map<Gen, Binding>) {
    if binding_mentions(val, key) {
        (Err(TypeError::ContainsItself(key, val)), m)
    } else {
        (Ok(m.get(key)), m.insert(key, val))
    }
}

/// Adds `key -> val` to the bindings unless `val` mentions `key`.
pub fn insert(bindings: &mut GenBindings, key: Gen, val: Binding) -> (r: Result<
    Option<Binding>,
    TypeError,
>)
    ensures
        (r, final(bindings)@) == insert_spec(old(bindings)@, key, val),
{
    let mentions = match &val {
        Binding::Alias(g) => *g == key,
        Binding::Bounded(b) => b.contains(&key),
    };
    if mentions {
        return Err(TypeError::ContainsItself(key, val));
    }
    let r = bindings.insert(key, val);
    proof {
        assert(old(bindings)@.get(key) == r);
    }
    Ok(r)
}

/// Follows the aliases from `key`, at most `fuel` of them; `gen` is where the
/// walk started. A walk that comes back to `gen`, or that needs more steps than
/// the map has entries (and so goes round a circle), is refused.
pub open spec fn resolve_chain(gen: Gen, key: Gen, m: Map<Gen, Binding>, fuel: nat) -> Result<
    FTy,
    TypeError,
>
    decreases fuel,
{
    if m.contains_key(key) {
        match m[key] {
            Binding::Bounded(b) => Ok(FTy::B(b)),
            Binding::Alias(next) => if next == gen || fuel == 0 {
                Err(TypeError::ResolvingLooped(gen))
            } else {
                resolve_chain(gen, next, m, (fuel - 1) as nat)
            },
        }
    } else {
        Ok(FTy::Gen(key))
    }
}

/// What a variable stands for: the bound at the end of its aliases, or the last
/// variable of the chain where it has no entry.
pub open spec fn resolve_spec(gen: Gen, m: Map<Gen, Binding>) -> Result<FTy, TypeError> {
    resolve_chain(gen, gen, m, m.len())
}

pub fn resolve(gen: &Gen, bindings: &GenBindings) -> (r: Result<FTy, TypeError>)
    ensures
        r == resolve_spec(*gen, bindings@),
{
    let ghost m = bindings@;
    let mut key: Gen = *gen;
    let mut fuel: usize = bindings.len();
    loop
        invariant
            m == bindings@,
            resolve_chain(*gen, key, m, fuel as nat) == resolve_spec(*gen, m),
        decreases fuel,
    {
        match bindings.get(&key) {
            Some(Binding::Bounded(b)) => {
                return Ok(FTy::B(b.copy()));
            },
            Some(Binding::Alias(next)) => {
                if *next == *gen || fuel == 0 {
                    return Err(TypeError::ResolvingLooped(*gen));
                }
                key = *next;
                fuel = fuel - 1;
            },
            None => {
                return Ok(FTy::Gen(key));
            },
        }
    }
}

/// The last variable reached by following aliases from `key` (at most `fuel` steps).
pub open spec fn root_chain(gen: Gen, key: Gen, m: Map<Gen, Binding>, fuel: nat) -> Result<
    Gen,
    TypeError,
>
    decreases fuel,
{
    if m.contains_key(key) && m[key] is Alias {
        let next = m[key]->Alias_0;
        if next == gen || fuel == 0 {
            Err(TypeError::ResolvingLooped(gen))
        } else {
            root_chain(gen, next, m, (fuel - 1) as nat)
        }
    } else {
        Ok(key)
    }
}

/// The end of a variable's alias chain, taken out of the bindings.
#[derive(Debug, PartialEq, Eq)]
pub enum Popped {
    /// The chain ends in a variable without entry.
    Free(Gen),
    /// The chain ends in a variable bound to this bound; the entry was removed.
    Bounded(Gen, Bound),
}

pub open spec fn resolve_and_pop_spec(gen: Gen, m: Map<Gen, Binding>) -> (Result<
    Popped,
    TypeError,
>, Map<Gen, Binding>) {
    match root_chain(gen, gen, m, m.len()) {
        Err(e) => (Err(e), m),
        Ok(key) => if m.contains_key(key) {
            (Ok(Popped::Bounded(key, m[key]->Bounded_0)), m.remove(key))
        } else {
            (Ok(Popped::Free(key)), m)
        },
    }
}

pub proof fn lemma_root_chain_ends(gen: Gen, key: Gen, m: Map<Gen, Binding>, fuel: nat)
    ensures
        root_chain(gen, key, m, fuel) matches Ok(k) ==> (m.contains_key(k) ==> m[k] is Bounded),
    decreases fuel,
{
    if m.contains_key(key) && m[key] is Alias {
        let next = m[key]->Alias_0;
        if !(next == gen || fuel == 0) {
            lemma_root_chain_ends(gen, next, m, (fuel - 1) as nat);
        }
    }
}

/// Follows the aliases of `gen` and removes the entry where they end, if that
/// entry is a bound.
pub fn resolve_and_pop(gen: &Gen, bindings: &mut GenBindings) -> (r: Result<Popped, TypeError>)
    ensures
        (r, final(bindings)@) == resolve_and_pop_spec(*gen, old(bindings)@),
{
    let ghost m = bindings@;
    let mut key: Gen = *gen;
    let mut fuel: usize = bindings.len();
    loop
        invariant
            m == bindings@,
            root_chain(*gen, key, m, fuel as nat) == root_chain(*gen, *gen, m, m.len()),
        ensures
            m == bindings@,
            root_chain(*gen, key, m, fuel as nat) == root_chain(*gen, *gen, m, m.len()),
            !(m.contains_key(key) && m[key] is Alias),
        decreases fuel,
    {
        match bindings.get(&key) {
            Some(Binding::Alias(next)) => {
                if *next == *gen || fuel == 0 {
                    return Err(TypeError::ResolvingLooped(*gen));
                }
                key = *next;
                fuel = fuel - 1;
            },
            _ => {
                break ;
            },
        }
    }
    proof {
        lemma_root_chain_ends(*gen, *gen, m, m.len());
    }
    match bindings.remove(&key) {
        Some(Binding::Bounded(bound)) => Ok(Popped::Bounded(key, bound)),
        None => Ok(Popped::Free(key)),
        Some(Binding::Alias(_)) => {
            proof {
                assert(false);
            }
            Err(TypeError::ResolvingLooped(*gen))
        },
    }
}

} // verus!
