//! The layered environment: a stack of bindings addressed by de Bruijn
//! index, split into a current layer that its owner may change and a chain of
//! frozen layers that any number of environments may share.
use std::rc::Rc;
use vstd::prelude::*;

verus! {

/// What an environment holds: the bindings of its frozen layers, oldest
/// first, and those of its current layer, oldest first.
pub struct EnvView<T> {
    pub frozen: Seq<T>,
    pub current: Seq<T>,
}

impl<T> EnvView<T> {
    /// The environment without bindings.
    pub open spec fn empty() -> EnvView<T> {
        EnvView { frozen: Seq::empty(), current: Seq::empty() }
    }

    /// Every binding, oldest first.
    pub open spec fn bindings(self) -> Seq<T> {
        self.frozen + self.current
    }

    /// The number of bindings.
    pub open spec fn len(self) -> nat {
        self.frozen.len() + self.current.len()
    }

    /// The binding at de Bruijn index `n`: index 0 is the newest binding of
    /// the current layer, and indices past the current layer continue in the
    /// frozen layers.
    pub open spec fn lookup(self, n: nat) -> Option<T> {
        if n < self.current.len() {
            Some(self.current[self.current.len() - 1 - n])
        } else if n - self.current.len() < self.frozen.len() {
            Some(self.frozen[self.frozen.len() - 1 - (n - self.current.len())])
        } else {
            None
        }
    }

    /// The environment after one more binding.
    pub open spec fn bind(self, t: T) -> EnvView<T> {
        EnvView { frozen: self.frozen, current: self.current.push(t) }
    }

    /// The environment after its current layer lost its newest binding.
    pub open spec fn unbind(self) -> EnvView<T>
        recommends
            self.current.len() > 0,
    {
        EnvView { frozen: self.frozen, current: self.current.drop_last() }
    }

    /// The environment after it lost its newest binding, wherever that
    /// binding stood. Where it stood in a frozen layer, nothing is left in the
    /// current layer, and the frozen layers hold the other bindings. An empty
    /// environment stays empty.
    pub open spec fn without_newest(self) -> EnvView<T> {
        if self.current.len() > 0 {
            self.unbind()
        } else if self.frozen.len() > 0 {
            EnvView { frozen: self.frozen.drop_last(), current: Seq::empty() }
        } else {
            self
        }
    }

    /// The environment after its current layer was frozen: the same bindings,
    /// none of them in the current layer.
    pub open spec fn freeze(self) -> EnvView<T> {
        EnvView { frozen: self.frozen + self.current, current: Seq::empty() }
    }

    /// The environment after each of `ts` was bound, in their order.
    pub open spec fn bind_all(self, ts: Seq<T>) -> EnvView<T>
        decreases ts.len(),
    {
        if ts.len() == 0 {
            self
        } else {
            self.bind_all(ts.drop_last()).bind(ts.last())
        }
    }

    /// Index `m` is bound, and `pred` may answer `b` on its binding.
    pub open spec fn answers<F: Fn(&T) -> bool>(self, pred: &F, m: nat, b: bool) -> bool {
        self.lookup(m) matches Some(t) && pred.ensures((&t,), b)
    }
}

/// A layered environment.
#[derive(Debug, PartialEq)]
pub struct Env<T> {
    /// The current layer, oldest binding first.
    current: Vec<T>,
    /// The frozen layers under it.
    previous: Option<Rc<Env<T>>>,
}

/// Calls `Rc::clone`: another handle to the same frozen layers.
#[verifier::external_body]
fn share<T>(layers: &Rc<Env<T>>) -> (r: Rc<Env<T>>)
    ensures
        *r == **layers,
{
    Rc::clone(layers)
}

impl<T> View for Env<T> {
    type V = EnvView<T>;

    closed spec fn view(&self) -> EnvView<T> {
        EnvView { frozen: self.frozen(), current: self.current@ }
    }
}

impl<T> Env<T> {
    /// The bindings of the frozen layers, oldest first.
    pub closed spec fn frozen(&self) -> Seq<T>
        decreases self,
    {
        match self.previous {
            None => Seq::empty(),
            Some(p) => p.frozen() + p.current@,
        }
    }

    /// Create a new (empty) environment.
    pub fn new() -> (env: Env<T>)
        ensures
            env@ == EnvView::<T>::empty(),
    {
        Env { current: Vec::new(), previous: None }
    }

    /// The number of bindings in the current layer.
    pub fn current_len(&self) -> (n: usize)
        ensures
            n == self@.current.len(),
    {
        self.current.len()
    }

    /// Add a new binding to the environment.
    pub fn bind(&mut self, t: T)
        ensures
            final(self)@ == old(self)@.bind(t),
    {
        self.current.push(t);
    }

    /// Pop the latest binding from the current layer.
    pub fn unbind(&mut self)
        requires
            old(self)@.current.len() > 0,
        ensures
            final(self)@ == old(self)@.unbind(),
    {
        self.current.pop();
    }

    /// The binding at de Bruijn index `n`, if there is one.
    pub fn lookup(&self, n: usize) -> (r: Option<&T>)
        ensures
            match r {
                Some(t) => self@.lookup(n as nat) == Some(*t),
                None => self@.lookup(n as nat) is None,
            },
        decreases self,
    {
        let len = self.current.len();
        if n < len {
            Some(&self.current[len - 1 - n])
        } else {
            match &self.previous {
                Some(p) => p.lookup(n - len),
                None => None,
            }
        }
    }

    /// Freezes the current layer, if it holds anything, and hands out a
    /// second environment over the same frozen layers. Both then have an
    /// empty current layer, so that a later `bind` on either is unseen by the
    /// other.
    pub fn snapshot(&mut self) -> (copy: Env<T>)
        ensures
            final(self)@ == old(self)@.freeze(),
            copy@ == old(self)@.freeze(),
    {
        if self.current.len() > 0 {
            let mut layer: Vec<T> = Vec::new();
            core::mem::swap(&mut self.current, &mut layer);
            let mut under: Option<Rc<Env<T>>> = None;
            core::mem::swap(&mut self.previous, &mut under);
            let top = Env { current: layer, previous: under };
            assert(top.frozen() == old(self).frozen());
            self.previous = Some(Rc::new(top));
            assert(self.frozen() == top.frozen() + top.current@);
        } else {
            assert(self.frozen() =~= old(self).frozen() + old(self).current@);
        }
        let previous = match &self.previous {
            Some(p) => Some(share(p)),
            None => None,
        };
        let copy = Env { current: Vec::new(), previous };
        assert(copy.frozen() == self.frozen());
        assert(self.current@ =~= Seq::<T>::empty());
        copy
    }

    /// The least de Bruijn index whose binding `pred` accepts.
    pub fn position_of_first_match<F: Fn(&T) -> bool>(&self, pred: &F) -> (r: Option<usize>)
        requires
            self@.len() <= usize::MAX,
            forall|t: &T| pred.requires((t,)),
        ensures
            match r {
                Some(n) => {
                    &&& self@.answers(pred, n as nat, true)
                    &&& forall|m: nat| m < n ==> self@.answers(pred, m, false)
                },
                None => forall|m: nat| m < self@.len() ==> self@.answers(pred, m, false),
            },
        decreases self,
    {
        let len = self.current.len();
        let mut i: usize = 0;
        while i < len
            invariant
                len == self.current@.len(),
                i <= len,
                forall|t: &T| pred.requires((t,)),
                forall|m: nat| m < i ==> self@.answers(pred, m, false),
            decreases len - i,
        {
            if pred(&self.current[len - 1 - i]) {
                return Some(i);
            }
            i = i + 1;
        }
        match &self.previous {
            None => None,
            Some(p) => {
                assert forall|m: nat| len <= m implies self@.lookup(m) == p@.lookup(
                    (m - len) as nat,
                ) by {
                    self.lemma_lookup_below(m);
                }
                assert(p@.len() == self.frozen().len());
                match p.position_of_first_match(pred) {
                    None => {
                        assert forall|m: nat| m < self@.len() implies self@.answers(
                            pred,
                            m,
                            false,
                        ) by {
                            if m >= len {
                                assert(p@.answers(pred, (m - len) as nat, false));
                            }
                        }
                        None
                    },
                    Some(n) => {
                        assert forall|m: nat| m < n + len implies self@.answers(
                            pred,
                            m,
                            false,
                        ) by {
                            if m >= len {
                                assert(p@.answers(pred, (m - len) as nat, false));
                            }
                        }
                        assert(self@.lookup((n + len) as nat) == p@.lookup(n as nat));
                        Some(n + len)
                    },
                }
            },
        }
    }

    /// A lookup past the current layer is a lookup in the environment that
    /// was frozen under it.
    proof fn lemma_lookup_below(&self, m: nat)
        requires
            self.previous is Some,
            m >= self.current@.len(),
        ensures
            self@.lookup(m) == self.previous->0@.lookup((m - self.current@.len()) as nat),
    {
    }
}

/// The bindings of a chain of frozen layers, oldest first.
pub closed spec fn chain_bindings<T>(layers: Option<Rc<Env<T>>>) -> Seq<T> {
    match layers {
        None => Seq::empty(),
        Some(p) => p.frozen() + p.current@,
    }
}

impl<T: Copy> Env<T> {
    /// A chain of frozen layers that holds the bindings of this environment
    /// but the newest. A layer that loses a binding is copied; the layers
    /// under it are shared.
    fn all_but_newest(&self) -> (rest: Option<Rc<Env<T>>>)
        ensures
            self@.len() > 0 ==> chain_bindings(rest) == self@.bindings().drop_last(),
            self@.len() == 0 ==> chain_bindings(rest) == Seq::<T>::empty(),
        decreases self,
    {
        let len = self.current.len();
        if len == 0 {
            assert(self@.bindings() =~= self.frozen());
            match &self.previous {
                None => None,
                Some(p) => p.all_but_newest(),
            }
        } else {
            let under = match &self.previous {
                Some(p) => Some(share(p)),
                None => None,
            };
            if len == 1 {
                assert(self@.bindings().drop_last() =~= self.frozen());
                under
            } else {
                let mut layer: Vec<T> = Vec::new();
                let mut i: usize = 0;
                while i < len - 1
                    invariant
                        len == self.current@.len(),
                        i <= len - 1,
                        layer@ == self.current@.take(i as int),
                    decreases len - i,
                {
                    layer.push(self.current[i]);
                    i = i + 1;
                }
                let top = Env { current: layer, previous: under };
                assert(top.frozen() == self.frozen());
                assert(top.frozen() + top.current@ =~= self@.bindings().drop_last());
                Some(Rc::new(top))
            }
        }
    }

    /// Removes the newest binding, wherever it stands: from the current
    /// layer if that holds one, else from the frozen layers, of which the
    /// newest is then copied without it. Environments that share the frozen
    /// layers keep the binding.
    pub fn drop_newest(&mut self)
        ensures
            final(self)@ == old(self)@.without_newest(),
    {
        if self.current.len() > 0 {
            self.current.pop();
        } else {
            let rest = match &self.previous {
                None => None,
                Some(p) => {
                    assert(p@.bindings() == old(self).frozen());
                    assert(p@.len() == old(self).frozen().len());
                    p.all_but_newest()
                },
            };
            self.previous = rest;
            assert(self.frozen() == chain_bindings(self.previous));
            assert(self.current@ =~= Seq::<T>::empty());
            assert(old(self).current@ =~= Seq::<T>::empty());
            assert(self@.frozen =~= old(self)@.without_newest().frozen);
        }
    }

    /// A second environment with the same layers: the current layer is
    /// copied, the frozen layers are shared.
    pub fn duplicate(&self) -> (copy: Env<T>)
        ensures
            copy@ == self@,
    {
        let previous = match &self.previous {
            Some(p) => Some(share(p)),
            None => None,
        };
        let len = self.current.len();
        let mut current: Vec<T> = Vec::new();
        let mut i: usize = 0;
        while i < len
            invariant
                len == self.current@.len(),
                i <= len,
                current@ == self.current@.take(i as int),
            decreases len - i,
        {
            current.push(self.current[i]);
            i = i + 1;
        }
        assert(current@ =~= self.current@);
        let copy = Env { current, previous };
        assert(copy.frozen() == self.frozen());
        copy
    }
}

/// A store of cells. A cell is named by the index at which it was
/// allocated; its content can be replaced, and every environment that binds
/// the cell sees the replacement.
#[derive(Debug)]
pub struct Store<T> {
    cells: Vec<T>,
}

impl<T> View for Store<T> {
    type V = Seq<T>;

    closed spec fn view(&self) -> Seq<T> {
        self.cells@
    }
}

impl<T> Store<T> {
    /// A store without cells.
    pub fn new() -> (store: Store<T>)
        ensures
            store@ == Seq::<T>::empty(),
    {
        Store { cells: Vec::new() }
    }

    /// The number of cells.
    pub fn len(&self) -> (n: usize)
        ensures
            n == self@.len(),
    {
        self.cells.len()
    }

    /// Allocates a cell that holds `content`, and returns its name.
    pub fn allocate(&mut self, content: T) -> (cell: usize)
        ensures
            cell == old(self)@.len(),
            final(self)@ == old(self)@.push(content),
    {
        let cell = self.cells.len();
        self.cells.push(content);
        cell
    }

    /// The content of `cell`, if there is such a cell.
    pub fn get(&self, cell: usize) -> (content: Option<&T>)
        ensures
            cell < self@.len() ==> content == Some(&self@[cell as int]),
            cell >= self@.len() ==> content is None,
    {
        if cell < self.cells.len() {
            Some(&self.cells[cell])
        } else {
            None
        }
    }

    /// Replaces the content of `cell`.
    pub fn set(&mut self, cell: usize, content: T)
        requires
            cell < old(self)@.len(),
        ensures
            final(self)@ == old(self)@.update(cell as int, content),
    {
        self.cells[cell] = content;
    }
}

/// The outcome of looking, from the newest binding to the oldest, for the
/// first cell on whose content `pred` answers `true`: `outcome` is that cell,
/// and `pred` answered `false` on every cell bound after it; or `outcome` is
/// `None`, and `pred` answered `false` on every bound cell. A binding that
/// names no cell of `cells` is passed over.
pub open spec fn first_accepted<T, F: Fn(&T) -> bool>(
    bindings: Seq<usize>,
    cells: Seq<T>,
    pred: &F,
    outcome: Option<usize>,
) -> bool
    decreases bindings.len(),
{
    if bindings.len() == 0 {
        outcome is None
    } else {
        let cell = bindings.last();
        ||| cell < cells.len() && pred.ensures((&cells[cell as int],), true) && outcome == Some(
            cell,
        )
        ||| (cell >= cells.len() || pred.ensures((&cells[cell as int],), false))
            && first_accepted(bindings.drop_last(), cells, pred, outcome)
    }
}

/// Bindings that come after those looked at and were all passed over do not
/// change the outcome.
proof fn lemma_first_accepted_skip<T, F: Fn(&T) -> bool>(
    older: Seq<usize>,
    newer: Seq<usize>,
    cells: Seq<T>,
    pred: &F,
    outcome: Option<usize>,
)
    requires
        first_accepted(older, cells, pred, outcome),
        forall|k: int|
            0 <= k < newer.len() ==> (#[trigger] newer[k]) >= cells.len() || pred.ensures(
                (&cells[newer[k] as int],),
                false,
            ),
    ensures
        first_accepted(older + newer, cells, pred, outcome),
    decreases newer.len(),
{
    if newer.len() == 0 {
        assert(older + newer =~= older);
    } else {
        lemma_first_accepted_skip(older, newer.drop_last(), cells, pred, outcome);
        assert((older + newer).drop_last() =~= older + newer.drop_last());
        assert((older + newer).last() == newer[newer.len() - 1]);
    }
}

impl Env<usize> {
    /// Looks for the first bound cell that `pred` accepts.
    fn find_cell<T, F: Fn(&T) -> bool>(&self, store: &Store<T>, pred: &F) -> (r: Option<usize>)
        requires
            forall|t: &T| pred.requires((t,)),
        ensures
            first_accepted(self@.bindings(), store@, pred, r),
            r matches Some(cell) ==> cell < store@.len(),
        decreases self,
    {
        let len = self.current.len();
        let mut i: usize = 0;
        while i < len
            invariant
                len == self.current@.len(),
                i <= len,
                forall|t: &T| pred.requires((t,)),
                forall|k: int|
                    len - i <= k < len ==> (#[trigger] self.current@[k]) >= store@.len()
                        || pred.ensures((&store@[self.current@[k] as int],), false),
            decreases len - i,
        {
            let cell = self.current[len - 1 - i];
            if cell < store.cells.len() {
                if pred(&store.cells[cell]) {
                    proof {
                        let upto = self.frozen() + self.current@.take(len - i);
                        assert(upto.last() == cell);
                        assert(first_accepted(upto, store@, pred, Some(cell)));
                        lemma_first_accepted_skip(
                            upto,
                            self.current@.skip(len - i),
                            store@,
                            pred,
                            Some(cell),
                        );
                        assert(upto + self.current@.skip(len - i) =~= self@.bindings());
                    }
                    return Some(cell);
                }
            }
            i = i + 1;
        }
        let r = match &self.previous {
            None => None,
            Some(p) => p.find_cell(store, pred),
        };
        proof {
            assert(first_accepted(self.frozen(), store@, pred, r));
            lemma_first_accepted_skip(self.frozen(), self.current@, store@, pred, r);
        }
        r
    }

    /// Replaces the content of the first bound cell that `pred` accepts,
    /// looking from the newest binding to the oldest, and returns that cell.
    /// Where `pred` accepts none, nothing changes.
    pub fn update_first_match<T, F: Fn(&T) -> bool>(
        &self,
        store: &mut Store<T>,
        new_val: T,
        pred: F,
    ) -> (r: Option<usize>)
        requires
            forall|t: &T| pred.requires((t,)),
        ensures
            first_accepted(self@.bindings(), old(store)@, &pred, r),
            match r {
                Some(cell) => cell < old(store)@.len() && final(store)@ == old(store)@.update(
                    cell as int,
                    new_val,
                ),
                None => final(store)@ == old(store)@,
            },
    {
        let found = self.find_cell(store, &pred);
        if let Some(cell) = found {
            store.set(cell, new_val);
        }
        found
    }

    /// Replaces the content of the cell bound at de Bruijn index `n`. Where
    /// `n` is not bound, or bound to no cell of `store`, nothing changes.
    pub fn update<T>(&self, store: &mut Store<T>, n: usize, new_val: T)
        ensures
            final(store)@ == match self@.lookup(n as nat) {
                Some(cell) if cell < old(store)@.len() => old(store)@.update(cell as int, new_val),
                _ => old(store)@,
            },
    {
        if let Some(cell) = self.lookup(n) {
            let cell = *cell;
            if cell < store.len() {
                store.set(cell, new_val);
            }
        }
    }
}

/// Binding adds to the current layer only.
pub proof fn lemma_bind_all<T>(env: EnvView<T>, ts: Seq<T>)
    ensures
        env.bind_all(ts).frozen == env.frozen,
        env.bind_all(ts).current == env.current + ts,
    decreases ts.len(),
{
    if ts.len() == 0 {
        assert(env.current + ts =~= env.current);
    } else {
        lemma_bind_all(env, ts.drop_last());
        assert(env.current + ts =~= (env.current + ts.drop_last()).push(ts.last()));
    }
}

/// After a sequence of `n` bindings with nothing between them, index `i`
/// finds the binding made `i` steps before the last one, whatever the
/// environment held before.
pub proof fn lemma_lookup_after_binds<T>(env: EnvView<T>, ts: Seq<T>, i: nat)
    requires
        i < ts.len(),
    ensures
        env.bind_all(ts).lookup(i) == Some(ts[ts.len() - 1 - i]),
{
    lemma_bind_all(env, ts);
}

/// Indices past the new bindings find what they found before, moved by the
/// number of new bindings.
pub proof fn lemma_lookup_past_binds<T>(env: EnvView<T>, ts: Seq<T>, i: nat)
    ensures
        env.bind_all(ts).lookup(i + ts.len()) == env.lookup(i),
{
    lemma_bind_all(env, ts);
}

/// A snapshot preserves every lookup: freezing the current layer moves
/// bindings between layers and changes no index.
pub proof fn lemma_freeze_preserves_lookup<T>(env: EnvView<T>, i: nat)
    ensures
        env.freeze().lookup(i) == env.lookup(i),
        env.freeze().bindings() == env.bindings(),
{
    assert(env.freeze().bindings() =~= env.bindings());
}

/// After a snapshot, a binding made on one of the two environments is
/// unseen by the other: the other still finds at every index what the
/// environment held before the snapshot, and the one that was bound finds it
/// one index further.
pub proof fn lemma_branches_are_independent<T>(env: EnvView<T>, t: T, i: nat)
    ensures
        ({
            let bound = env.freeze().bind(t);
            let other = env.freeze();
            &&& other.lookup(i) == env.lookup(i)
            &&& bound.lookup(0) == Some(t)
            &&& bound.lookup(i + 1) == env.lookup(i)
        }),
{
    lemma_freeze_preserves_lookup(env, i);
}

} // verus!
