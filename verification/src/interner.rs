//! Interned identifiers. An `Interner` gives every distinct string one small
//! number, so that identifiers are compared and copied as integers. The
//! strings are kept in the order of their numbers, and found again through a
//! table from the hash of a string to the numbers of the strings with that
//! hash.
use std::collections::HashMap;
use vstd::prelude::*;

verus! {

/// An identifier for an interned string: its number in the `Interner` that
/// made it.
#[derive(Debug, Clone, Copy, PartialEq, Eq, Hash, Structural)]
pub struct Id(pub usize);

/// No string occurs twice.
pub open spec fn distinct(names: Seq<Seq<char>>) -> bool {
    forall|i: int, j: int| 0 <= i < j < names.len() ==> names[i] != names[j]
}

/// The effect of interning `s` in a table that holds `names`: the table
/// afterwards, and the number that stands for `s`.
pub open spec fn interned(names: Seq<Seq<char>>, s: Seq<char>) -> (Seq<Seq<char>>, nat) {
    if names.contains(s) {
        (names, names.index_of(s) as nat)
    } else {
        (names.push(s), names.len())
    }
}

/// The modulus of the hash: a prime under 2^32.
pub const HASH_MODULUS: u64 = 4294967291;

/// The hash of a string.
pub open spec fn hash_of(s: Seq<char>) -> u64
    decreases s.len(),
{
    if s.len() == 0 {
        0
    } else {
        ((hash_of(s.drop_last()) * 31 + s.last() as u32) % (HASH_MODULUS as int)) as u64
    }
}

/// A hash is under the modulus.
proof fn lemma_hash_bound(s: Seq<char>)
    ensures
        hash_of(s) < HASH_MODULUS,
    decreases s.len(),
{
    if s.len() > 0 {
        lemma_hash_bound(s.drop_last());
    }
}

/// The hash of `s`.
fn hash(s: &str) -> (h: u64)
    ensures
        h == hash_of(s@),
{
    let mut h: u64 = 0;
    for c in it: s.chars()
        invariant
            it.seq() == s@,
            h == hash_of(it.seq().take(it.index() as int)),
            h < HASH_MODULUS,
    {
        proof {
            let upto = it.seq().take(it.index() + 1);
            assert(upto.drop_last() =~= it.seq().take(it.index() as int));
            assert(upto.last() == c);
            lemma_hash_bound(upto);
        }
        h = (h * 31 + (c as u32) as u64) % HASH_MODULUS;
    }
    assert(s@.take(s@.len() as int) =~= s@);
    h
}

/// A string interner. Interning a string ensures we only have a single copy of
/// it across the interpreter's lifetime.
#[derive(Debug)]
pub struct Interner {
    /// The interned strings, each at the index that is its `Id`.
    names: Vec<String>,
    /// For each hash, the numbers of the strings that have it.
    buckets: HashMap<u64, Vec<usize>>,
}

impl View for Interner {
    type V = Seq<Seq<char>>;

    closed spec fn view(&self) -> Seq<Seq<char>> {
        Seq::new(self.names@.len(), |i: int| self.names@[i]@)
    }
}

impl Interner {
    /// Every string was given one number only, and the table of hashes
    /// finds every string.
    pub open spec fn wf(&self) -> bool {
        distinct(self@) && self.indexed()
    }

    /// Every string's number stands under the string's hash, and under a
    /// hash stand only numbers of strings.
    pub closed spec fn indexed(&self) -> bool {
        &&& forall|i: int|
            0 <= i < self.names@.len() ==> {
                &&& self.buckets@.contains_key(#[trigger] hash_of(self.names@[i]@))
                &&& self.buckets@[hash_of(self.names@[i]@)]@.contains(i as usize)
            }
        &&& forall|h: u64, k: int|
            self.buckets@.contains_key(h) && 0 <= k < self.buckets@[h]@.len() ==> (
            #[trigger] self.buckets@[h]@[k]) < self.names@.len()
    }

    /// Constructs a new [Interner]
    pub fn new() -> (interner: Interner)
        ensures
            interner.wf(),
            interner@ == Seq::<Seq<char>>::empty(),
    {
        let interner = Interner { names: Vec::new(), buckets: HashMap::new() };
        assert(interner@ =~= Seq::<Seq<char>>::empty());
        interner
    }

    /// The number of strings interned so far.
    pub fn len(&self) -> (n: usize)
        ensures
            n == self@.len(),
    {
        self.names.len()
    }

    /// The number of `wanted`, if it was interned.
    fn find(&self, wanted: &String) -> (r: Option<usize>)
        requires
            self.wf(),
        ensures
            match r {
                Some(i) => i < self@.len() && self@[i as int] == wanted@,
                None => !self@.contains(wanted@),
            },
    {
        let h = hash(wanted.as_str());
        let total = self.names.len();
        match self.buckets.get(&h) {
            None => {
                assert forall|i: int| 0 <= i < self@.len() implies self@[i] != wanted@ by {
                    if self@[i] == wanted@ {
                        assert(self.buckets@.contains_key(hash_of(self.names@[i]@)));
                    }
                }
                None
            },
            Some(bucket) => {
                let n = bucket.len();
                let mut k: usize = 0;
                while k < n
                    invariant
                        self.wf(),
                        n == bucket@.len(),
                        k <= n,
                        self.buckets@.contains_key(h),
                        *bucket == self.buckets@[h],
                        h == hash_of(wanted@),
                        forall|j: int| 0 <= j < k ==> self@[bucket@[j] as int] != wanted@,
                    decreases n - k,
                {
                    let i = bucket[k];
                    assert(self.buckets@[h]@[k as int] < self.names@.len());
                    if self.names[i] == *wanted {
                        return Some(i);
                    }
                    k = k + 1;
                }
                assert forall|i: int| 0 <= i < self@.len() implies self@[i] != wanted@ by {
                    if self@[i] == wanted@ {
                        assert(self.names@[i]@ == wanted@);
                        assert(self.buckets@[hash_of(self.names@[i]@)]@.contains(i as usize));
                        assert(bucket@.contains(i as usize));
                        let j = choose|j: int| 0 <= j < bucket@.len() && bucket@[j] == i as usize;
                        assert(self@[bucket@[j] as int] != wanted@);
                    }
                }
                None
            },
        }
    }

    /// Intern a string and return the corresponding [Id]
    pub fn intern(&mut self, s: &str) -> (id: Id)
        requires
            old(self).wf(),
        ensures
            final(self).wf(),
            (final(self)@, id.0 as nat) == interned(old(self)@, s@),
    {
        let wanted = s.to_owned();
        match self.find(&wanted) {
            Some(i) => {
                assert(self@.contains(s@));
                assert(self@.index_of(s@) == i) by {
                    let k = self@.index_of(s@);
                    assert(0 <= k < self@.len() && self@[k] == s@);
                    if k < i {
                        assert(self@[k] != self@[i as int]);
                    } else if i < k {
                        assert(self@[i as int] != self@[k]);
                    }
                }
                Id(i)
            },
            None => {
                let n = self.names.len();
                let h = hash(s);
                let mut bucket = match self.buckets.remove(&h) {
                    Some(bucket) => bucket,
                    None => Vec::new(),
                };
                let ghost before = bucket@;
                bucket.push(n);
                self.buckets.insert(h, bucket);
                self.names.push(wanted);
                assert(self@ =~= old(self)@.push(s@));
                proof {
                    lemma_intern_extends(old(self)@, s@);
                    assert forall|i: int| 0 <= i < self.names@.len() implies {
                        &&& self.buckets@.contains_key(#[trigger] hash_of(self.names@[i]@))
                        &&& self.buckets@[hash_of(self.names@[i]@)]@.contains(i as usize)
                    } by {
                        let hi = hash_of(self.names@[i]@);
                        if i < n {
                            assert(self.names@[i] == old(self).names@[i]);
                            assert(old(self).buckets@.contains_key(hi));
                            let was = old(self).buckets@[hi]@;
                            assert(was.contains(i as usize));
                            if hi == h {
                                let j = choose|j: int| 0 <= j < was.len() && was[j] == i as usize;
                                assert(before.push(n)[j] == i as usize);
                            }
                        } else {
                            assert(before.push(n)[before.len() as int] == n);
                        }
                    }
                    assert forall|g: u64, k: int|
                        self.buckets@.contains_key(g) && 0 <= k < self.buckets@[g]@.len() implies (
                        #[trigger] self.buckets@[g]@[k]) < self.names@.len() by {
                        if g != h {
                            assert(old(self).buckets@.contains_key(g));
                            assert(old(self).buckets@[g]@[k] < old(self).names@.len());
                        } else if k < before.len() {
                            assert(old(self).buckets@.contains_key(h));
                            assert(old(self).buckets@[h]@[k] < old(self).names@.len());
                        }
                    }
                }
                Id(n)
            },
        }
    }

    /// Lookup the [Id] and return a reference to the interned string.
    pub fn lookup(&self, id: Id) -> (name: &str)
        requires
            id.0 < self@.len(),
        ensures
            name@ == self@[id.0 as int],
    {
        self.names[id.0].as_str()
    }
}

impl Id {
    /// Construct a new `Id`.
    pub fn new(interner: &mut Interner, s: &str) -> (id: Id)
        requires
            old(interner).wf(),
        ensures
            final(interner).wf(),
            (final(interner)@, id.0 as nat) == interned(old(interner)@, s@),
    {
        interner.intern(s)
    }

    /// Retrieves the string the `Id` was created with.
    pub fn name<'a>(&self, interner: &'a Interner) -> (name: &'a str)
        requires
            self.0 < interner@.len(),
        ensures
            name@ == interner@[self.0 as int],
    {
        interner.lookup(*self)
    }
}

/// Interning a string a second time changes nothing and gives the same
/// number.
pub proof fn lemma_intern_idempotent(names: Seq<Seq<char>>, s: Seq<char>)
    ensures
        interned(interned(names, s).0, s) == interned(names, s),
{
    let (after, id) = interned(names, s);
    if !names.contains(s) {
        assert(after[names.len() as int] == s);
        assert(after.contains(s));
        let k = after.index_of(s);
        assert(k == names.len()) by {
            if k < names.len() {
                assert(names[k] == s);
                assert(names.contains(s));
            }
        }
    }
}

/// The number that interning gives names the interned string.
pub proof fn lemma_name_of_interned(names: Seq<Seq<char>>, s: Seq<char>)
    ensures
        interned(names, s).1 < interned(names, s).0.len(),
        interned(names, s).0[interned(names, s).1 as int] == s,
{
}

/// Interning keeps the numbers that were given before, keeps the table free
/// of repetitions, and adds at most one string.
pub proof fn lemma_intern_extends(names: Seq<Seq<char>>, s: Seq<char>)
    requires
        distinct(names),
    ensures
        distinct(interned(names, s).0),
        names.len() <= interned(names, s).0.len() <= names.len() + 1,
        forall|i: int| 0 <= i < names.len() ==> interned(names, s).0[i] == names[i],
{
    if !names.contains(s) {
        let after = names.push(s);
        assert forall|i: int, j: int| 0 <= i < j < after.len() implies after[i] != after[j] by {
            if j == names.len() {
                if after[i] == s {
                    assert(names[i] == s);
                    assert(names.contains(s));
                }
            }
        }
    }
}

/// Two strings interned one after the other get the same number exactly
/// when they are the same string.
pub proof fn lemma_intern_injective(names: Seq<Seq<char>>, s1: Seq<char>, s2: Seq<char>)
    requires
        distinct(names),
    ensures
        (interned(names, s1).1 == interned(interned(names, s1).0, s2).1) <==> s1 == s2,
{
    let (n1, i1) = interned(names, s1);
    let (n2, i2) = interned(n1, s2);
    lemma_name_of_interned(names, s1);
    lemma_name_of_interned(n1, s2);
    lemma_intern_extends(names, s1);
    lemma_intern_extends(n1, s2);
    lemma_intern_idempotent(names, s1);
    if i1 == i2 {
        assert(n2[i1 as int] == n1[i1 as int]);
    }
}

} // verus!
