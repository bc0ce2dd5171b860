use vstd::prelude::*;
use vstd::string::StrSliceExecFns;

verus! {

/// A name: its characters, first character first.
#[derive(Debug, PartialEq, Eq)]
pub enum Name {
    End,
    Char(char, Box<Name>),
}

/// The name spelled by `s`.
pub open spec fn name_from(s: Seq<char>) -> Name
    decreases s.len(),
{
    if s.len() == 0 {
        Name::End
    } else {
        Name::Char(s[0], Box::new(name_from(s.drop_first())))
    }
}

/// The characters of a name.
pub open spec fn name_seq(n: Name) -> Seq<char>
    decreases n,
{
    match n {
        Name::End => Seq::empty(),
        Name::Char(c, rest) => seq![c] + name_seq(*rest),
    }
}

impl Name {
    /// The name spelled by `s`.
    pub fn from_str(s: &str) -> (r: Name)
        ensures
            r == name_from(s@),
    {
        let n = s.unicode_len();
        let mut i: usize = n;
        let mut r = Name::End;
        while i > 0
            invariant
                i <= n,
                n == s@.len(),
                r == name_from(s@.subrange(i as int, n as int)),
            decreases i,
        {
            i = i - 1;
            let c = s.get_char(i);
            proof {
                let t = s@.subrange(i as int, n as int);
                assert(t[0] == c);
                assert(t.drop_first() =~= s@.subrange(i + 1, n as int));
            }
            r = Name::Char(c, Box::new(r));
        }
        assert(s@.subrange(0, n as int) =~= s@);
        r
    }

    /// The name spelled by `s`.
    pub fn from_string(s: &String) -> (r: Name)
        ensures
            r == name_from(s@),
    {
        Name::from_str(s.as_str())
    }

    pub fn equals(&self, other: &Name) -> (r: bool)
        ensures
            r == (*self == *other),
        decreases self,
    {
        match (self, other) {
            (Name::End, Name::End) => true,
            (Name::Char(a, x), Name::Char(b, y)) => *a == *b && x.equals(y),
            _ => false,
        }
    }

    pub fn copy(&self) -> (r: Name)
        ensures
            r == *self,
        decreases self,
    {
        match self {
            Name::End => Name::End,
            Name::Char(c, rest) => Name::Char(*c, Box::new(rest.copy())),
        }
    }

    /// The characters of the name.
    pub fn chars(&self) -> (r: Vec<char>)
        ensures
            r@ == name_seq(*self),
        decreases self,
    {
        match self {
            Name::End => Vec::new(),
            Name::Char(c, rest) => {
                let mut v: Vec<char> = Vec::new();
                v.push(*c);
                let mut tail = rest.chars();
                v.append(&mut tail);
                v
            },
        }
    }
}

/// A map from names to values, newest entry first.
#[derive(Debug, PartialEq, Eq)]
pub enum Env<V> {
    Empty,
    Entry(Name, V, Box<Env<V>>),
}

/// The value stored under `key`.
pub open spec fn env_get<V>(e: Env<V>, key: Name) -> Option<V>
    decreases e,
{
    match e {
        Env::Empty => None,
        Env::Entry(k, v, rest) => if k == key {
            Some(v)
        } else {
            env_get(*rest, key)
        },
    }
}

/// The environment without the entry for `key`.
pub open spec fn env_remove<V>(e: Env<V>, key: Name) -> Env<V>
    decreases e,
{
    match e {
        Env::Empty => Env::Empty,
        Env::Entry(k, v, rest) => if k == key {
            env_remove(*rest, key)
        } else {
            Env::Entry(k, v, Box::new(env_remove(*rest, key)))
        },
    }
}

/// The environment where `key` holds `v`, whatever it held before.
pub open spec fn env_insert<V>(e: Env<V>, key: Name, v: V) -> Env<V> {
    Env::Entry(key, v, Box::new(env_remove(e, key)))
}

/// The names, newest first.
pub open spec fn env_keys<V>(e: Env<V>) -> Seq<Name>
    decreases e,
{
    match e {
        Env::Empty => Seq::empty(),
        Env::Entry(k, _, rest) => seq![k] + env_keys(*rest),
    }
}

/// No name has two entries.
pub open spec fn env_wf<V>(e: Env<V>) -> bool
    decreases e,
{
    match e {
        Env::Empty => true,
        Env::Entry(k, _, rest) => env_get(*rest, k) is None && env_wf(*rest),
    }
}

pub proof fn lemma_env_get_in_keys<V>(e: Env<V>, key: Name)
    ensures
        (env_get(e, key) is Some) == env_keys(e).contains(key),
    decreases e,
{
    match e {
        Env::Empty => {},
        Env::Entry(k, v, rest) => {
            lemma_env_get_in_keys(*rest, key);
            assert(env_keys(e)[0] == k);
            if env_keys(*rest).contains(key) {
                let i = choose|i: int| 0 <= i < env_keys(*rest).len() && env_keys(*rest)[i] == key;
                assert(env_keys(e)[i + 1] == key);
            }
            if env_keys(e).contains(key) && k != key {
                let i = choose|i: int| 0 <= i < env_keys(e).len() && env_keys(e)[i] == key;
                assert(i != 0);
                assert(env_keys(*rest)[i - 1] == key);
            }
        },
    }
}

pub proof fn lemma_env_remove<V>(e: Env<V>, key: Name, other: Name)
    ensures
        env_get(env_remove(e, key), other) == (if other == key {
            None
        } else {
            env_get(e, other)
        }),
        env_wf(e) ==> env_wf(env_remove(e, key)),
    decreases e,
{
    match e {
        Env::Empty => {},
        Env::Entry(k, v, rest) => {
            lemma_env_remove(*rest, key, other);
            lemma_env_remove(*rest, key, k);
        },
    }
}

/// What an insertion does to the lookups, and that it keeps names unique.
pub proof fn lemma_env_insert<V>(e: Env<V>, key: Name, v: V, other: Name)
    ensures
        env_get(env_insert(e, key, v), other) == (if other == key {
            Some(v)
        } else {
            env_get(e, other)
        }),
        env_wf(e) ==> env_wf(env_insert(e, key, v)),
{
    lemma_env_remove(e, key, other);
    lemma_env_remove(e, key, key);
}

impl<V> Env<V> {
    /// An environment without entries.
    pub fn new() -> (r: Env<V>)
        ensures
            r == Env::<V>::Empty,
    {
        Env::Empty
    }

    /// The value stored under `key`.
    pub fn get(&self, key: &Name) -> (r: Option<&V>)
        ensures
            match r {
                Some(v) => env_get(*self, *key) == Some(*v),
                None => env_get(*self, *key) is None,
            },
        decreases self,
    {
        match self {
            Env::Empty => None,
            Env::Entry(k, v, rest) => {
                if k.equals(key) {
                    Some(v)
                } else {
                    rest.get(key)
                }
            },
        }
    }

    /// Whether `key` has an entry.
    pub fn contains_key(&self, key: &Name) -> (r: bool)
        ensures
            r == (env_get(*self, *key) is Some),
    {
        self.get(key).is_some()
    }

    /// Removes the entry of `key`, if any.
    pub fn remove(self, key: &Name) -> (r: Env<V>)
        ensures
            r == env_remove(self, *key),
        decreases self,
    {
        match self {
            Env::Empty => Env::Empty,
            Env::Entry(k, v, rest) => {
                if k.equals(key) {
                    rest.remove(key)
                } else {
                    Env::Entry(k, v, Box::new(rest.remove(key)))
                }
            },
        }
    }

    /// Stores `v` under `key`, replacing what `key` held.
    pub fn insert(self, key: Name, v: V) -> (r: Env<V>)
        ensures
            r == env_insert(self, key, v),
    {
        let rest = self.remove(&key);
        Env::Entry(key, v, Box::new(rest))
    }

    /// The number of entries.
    pub fn len(&self) -> (r: usize)
        requires
            env_keys(*self).len() <= usize::MAX,
        ensures
            r == env_keys(*self).len(),
        decreases self,
    {
        match self {
            Env::Empty => 0,
            Env::Entry(_, _, rest) => 1 + rest.len(),
        }
    }

    /// Copies of the names, newest first.
    pub fn keys(&self) -> (r: Vec<Name>)
        ensures
            r@ == env_keys(*self),
        decreases self,
    {
        match self {
            Env::Empty => Vec::new(),
            Env::Entry(k, _, rest) => {
                let mut v: Vec<Name> = Vec::new();
                v.push(k.copy());
                let mut tail = rest.keys();
                v.append(&mut tail);
                v
            },
        }
    }
}

} // verus!
