//! The finite pool of names and identities that agents borrow.
//!
//! Names and identities are kept in two arrays that never change. What
//! changes is which positions are free: a position is either free or lent
//! out, never both and never neither.

use vstd::prelude::*;
use rand::rngs::SmallRng;
use rand::seq::SliceRandom;

verus! {

/// The random number generator that decides which free position is lent
/// next.
#[verifier::external_type_specification]
#[verifier::external_body]
pub struct ExSmallRng(SmallRng);

/// `SliceRandom::shuffle`, which only swaps elements: whatever the generator
/// yields, the vector afterwards holds what it held before, each element as
/// often as before.
#[verifier::external_body]
fn shuffle(slots: &mut Vec<usize>, rng: &mut SmallRng)
    ensures
        final(slots)@.to_multiset() == old(slots)@.to_multiset(),
{
    slots.shuffle(rng);
}

/// Nothing is free to be lent.
#[derive(Clone, Copy, Debug, PartialEq, Eq, Structural)]
pub struct Exhausted;

/// Which positions of a pool are free.
pub struct PoolView {
    pub name_count: nat,
    pub identity_count: nat,
    pub free_names: Set<usize>,
    pub free_identities: Set<usize>,
}

impl PoolView {
    /// The free positions are positions of the arrays, and finitely many.
    pub open spec fn wf(self) -> bool {
        &&& self.free_names.finite()
        &&& self.free_identities.finite()
        &&& forall|i: usize| self.free_names.contains(i) ==> i < self.name_count
        &&& forall|i: usize| self.free_identities.contains(i) ==> i < self.identity_count
    }

    /// The name at `index` is lent out.
    pub open spec fn name_lent(self, index: usize) -> bool {
        index < self.name_count && !self.free_names.contains(index)
    }

    /// The identity at `index` is lent out.
    pub open spec fn identity_lent(self, index: usize) -> bool {
        index < self.identity_count && !self.free_identities.contains(index)
    }

    /// The pool after the name at `index` was lent.
    pub open spec fn lend_name(self, index: usize) -> PoolView {
        PoolView { free_names: self.free_names.remove(index), ..self }
    }

    /// The pool after the identity at `index` was lent.
    pub open spec fn lend_identity(self, index: usize) -> PoolView {
        PoolView { free_identities: self.free_identities.remove(index), ..self }
    }

    /// The pool after the name at `index` came back.
    pub open spec fn return_name(self, index: usize) -> PoolView {
        PoolView { free_names: self.free_names.insert(index), ..self }
    }

    /// The pool after the identity at `index` came back.
    pub open spec fn return_identity(self, index: usize) -> PoolView {
        PoolView { free_identities: self.free_identities.insert(index), ..self }
    }

    /// The pool after a name and an identity came back.
    pub open spec fn release(self, name_index: usize, identity_index: usize) -> PoolView {
        self.return_name(name_index).return_identity(identity_index)
    }
}

/// One call on a pool, together with what it returned.
pub enum PoolStep {
    /// A name was asked for and the one at this position was lent.
    AllocateName(usize),
    /// An identity was asked for and the one at this position was lent.
    AllocateIdentity(usize),
    /// The name and the identity at these positions were released.
    Release(usize, usize),
}

impl PoolView {
    /// Whether `step` can happen on this pool: only what is free is lent,
    /// and only what is lent is released.
    pub open spec fn admits(self, step: PoolStep) -> bool {
        match step {
            PoolStep::AllocateName(index) => self.free_names.contains(index),
            PoolStep::AllocateIdentity(index) => self.free_identities.contains(index),
            PoolStep::Release(name_index, identity_index) => self.name_lent(name_index)
                && self.identity_lent(identity_index),
        }
    }

    /// The pool after `step`.
    pub open spec fn after(self, step: PoolStep) -> PoolView {
        match step {
            PoolStep::AllocateName(index) => self.lend_name(index),
            PoolStep::AllocateIdentity(index) => self.lend_identity(index),
            PoolStep::Release(name_index, identity_index) => self.release(
                name_index,
                identity_index,
            ),
        }
    }

    /// The pool after `steps`, taken in order.
    pub open spec fn after_all(self, steps: Seq<PoolStep>) -> PoolView
        decreases steps.len(),
    {
        if steps.len() == 0 {
            self
        } else {
            self.after_all(steps.drop_last()).after(steps.last())
        }
    }

    /// Whether `steps` can happen on this pool one after the other.
    pub open spec fn admits_all(self, steps: Seq<PoolStep>) -> bool
        decreases steps.len(),
    {
        steps.len() == 0 || (self.admits_all(steps.drop_last()) && self.after_all(
            steps.drop_last(),
        ).admits(steps.last()))
    }

    proof fn lemma_prefix_admitted(self, steps: Seq<PoolStep>, k: int)
        requires
            self.admits_all(steps),
            0 <= k <= steps.len(),
        ensures
            self.admits_all(steps.take(k)),
        decreases steps.len(),
    {
        if k == steps.len() {
            assert(steps.take(k) =~= steps);
        } else {
            assert(steps.drop_last().take(k) =~= steps.take(k));
            self.lemma_prefix_admitted(steps.drop_last(), k);
        }
    }

    proof fn lemma_step_admitted(self, steps: Seq<PoolStep>, k: int)
        requires
            self.admits_all(steps),
            0 <= k < steps.len(),
        ensures
            self.after_all(steps.take(k)).admits(steps[k]),
            self.after_all(steps.take(k + 1)) == self.after_all(steps.take(k)).after(steps[k]),
    {
        self.lemma_prefix_admitted(steps, k + 1);
        assert(steps.take(k + 1).drop_last() =~= steps.take(k));
    }

    proof fn lemma_stays_lent(self, steps: Seq<PoolStep>, a: int, c: int, index: usize)
        requires
            self.admits_all(steps),
            0 <= a < c <= steps.len(),
            steps[a] == PoolStep::AllocateName(index),
            forall|j: int|
                a < j < c ==> !(#[trigger] steps[j] matches PoolStep::Release(name_index, _)
                    && name_index == index),
        ensures
            !self.after_all(steps.take(c)).free_names.contains(index),
        decreases c - a,
    {
        self.lemma_step_admitted(steps, c - 1);
        if c > a + 1 {
            self.lemma_stays_lent(steps, a, c - 1, index);
        }
    }

    /// No name is lent twice at a time: in any run of calls that the pool
    /// admits, two calls that lend the same name have a release of that name
    /// between them.
    pub proof fn lemma_name_lent_once(self, steps: Seq<PoolStep>, a: int, b: int, index: usize)
        requires
            self.admits_all(steps),
            0 <= a < b < steps.len(),
            steps[a] == PoolStep::AllocateName(index),
            steps[b] == PoolStep::AllocateName(index),
        ensures
            exists|c: int|
                a < c < b && (#[trigger] steps[c] matches PoolStep::Release(name_index, _)
                    && name_index == index),
    {
        if !(exists|c: int|
            a < c < b && (#[trigger] steps[c] matches PoolStep::Release(name_index, _) && name_index
                == index)) {
            self.lemma_stays_lent(steps, a, b, index);
            self.lemma_step_admitted(steps, b);
        }
    }

    proof fn lemma_identity_stays_lent(self, steps: Seq<PoolStep>, a: int, c: int, index: usize)
        requires
            self.admits_all(steps),
            0 <= a < c <= steps.len(),
            steps[a] == PoolStep::AllocateIdentity(index),
            forall|j: int|
                a < j < c ==> !(#[trigger] steps[j] matches PoolStep::Release(_, identity_index)
                    && identity_index == index),
        ensures
            !self.after_all(steps.take(c)).free_identities.contains(index),
        decreases c - a,
    {
        self.lemma_step_admitted(steps, c - 1);
        if c > a + 1 {
            self.lemma_identity_stays_lent(steps, a, c - 1, index);
        }
    }

    /// No identity is lent twice at a time: in any run of calls that the
    /// pool admits, two calls that lend the same identity have a release of
    /// that identity between them.
    pub proof fn lemma_identity_lent_once(self, steps: Seq<PoolStep>, a: int, b: int, index: usize)
        requires
            self.admits_all(steps),
            0 <= a < b < steps.len(),
            steps[a] == PoolStep::AllocateIdentity(index),
            steps[b] == PoolStep::AllocateIdentity(index),
        ensures
            exists|c: int|
                a < c < b && (#[trigger] steps[c] matches PoolStep::Release(_, identity_index)
                    && identity_index == index),
    {
        if !(exists|c: int|
            a < c < b && (#[trigger] steps[c] matches PoolStep::Release(_, identity_index)
                && identity_index == index)) {
            self.lemma_identity_stays_lent(steps, a, b, index);
            self.lemma_step_admitted(steps, b);
        }
    }

    /// A run of calls that the pool admits keeps it well-formed.
    pub proof fn lemma_steps_keep_wf(self, steps: Seq<PoolStep>)
        requires
            self.wf(),
            self.admits_all(steps),
        ensures
            self.after_all(steps).wf(),
        decreases steps.len(),
    {
        if steps.len() > 0 {
            self.lemma_steps_keep_wf(steps.drop_last());
        }
    }

    /// Every name and every identity of the pool is either free or lent out,
    /// never both and never neither; and nothing else is either.
    pub proof fn lemma_free_or_lent(self, index: usize)
        requires
            self.wf(),
        ensures
            index < self.name_count ==> (self.free_names.contains(index) <==> !self.name_lent(
                index,
            )),
            index >= self.name_count ==> !self.free_names.contains(index) && !self.name_lent(index),
            index < self.identity_count ==> (self.free_identities.contains(index)
                <==> !self.identity_lent(index)),
            index >= self.identity_count ==> !self.free_identities.contains(index)
                && !self.identity_lent(index),
    {
    }

    /// Releasing a name and an identity that are lent out makes exactly one
    /// more name and one more identity free, and keeps the pool well-formed.
    pub proof fn lemma_release_adds_one(self, name_index: usize, identity_index: usize)
        requires
            self.wf(),
            self.name_lent(name_index),
            self.identity_lent(identity_index),
        ensures
            self.release(name_index, identity_index).wf(),
            self.release(name_index, identity_index).free_names.len() == self.free_names.len() + 1,
            self.release(name_index, identity_index).free_identities.len()
                == self.free_identities.len() + 1,
    {
    }

    /// Lending a free name and giving it back leaves the pool as it was.
    pub proof fn lemma_lend_then_return(self, index: usize)
        requires
            self.free_names.contains(index),
        ensures
            self.lend_name(index).return_name(index) == self,
    {
        assert(self.free_names.remove(index).insert(index) =~= self.free_names);
    }
}

/// A pool of names and of identities of type `I`.
pub struct ResourcePool<I> {
    names: Vec<String>,
    identities: Vec<I>,
    free_names: Vec<usize>,
    free_identities: Vec<usize>,
    rng: SmallRng,
}

/// A list of distinct positions below `count`.
pub open spec fn free_list(slots: Seq<usize>, count: nat) -> bool {
    &&& slots.no_duplicates()
    &&& forall|k: int| 0 <= k < slots.len() ==> slots[k] < count
}

proof fn lemma_reordered(before: Seq<usize>, after: Seq<usize>, count: nat)
    requires
        free_list(before, count),
        before.to_multiset() == after.to_multiset(),
    ensures
        free_list(after, count),
        after.to_set() == before.to_set(),
        after.len() == before.len(),
{
    vstd::seq_lib::to_multiset_len(before);
    vstd::seq_lib::to_multiset_len(after);
    before.lemma_multiset_has_no_duplicates();
    after.lemma_multiset_has_no_duplicates_conv();
    assert forall|x: usize| after.contains(x) <==> before.contains(x) by {
        vstd::seq_lib::to_multiset_contains(before, x);
        vstd::seq_lib::to_multiset_contains(after, x);
    }
    assert(after.to_set() =~= before.to_set());
    assert forall|k: int| 0 <= k < after.len() implies after[k] < count by {
        assert(after.contains(after[k]));
        let j = choose|j: int| 0 <= j < before.len() && before[j] == after[k];
    }
}

proof fn lemma_last_taken(slots: Seq<usize>, count: nat)
    requires
        free_list(slots, count),
        slots.len() > 0,
    ensures
        free_list(slots.drop_last(), count),
        slots.drop_last().to_set() == slots.to_set().remove(slots.last()),
        slots.to_set().contains(slots.last()),
{
    let rest = slots.drop_last();
    assert(slots.contains(slots.last()));
    assert forall|x: usize| rest.contains(x) <==> (slots.contains(x) && x != slots.last()) by {
        if rest.contains(x) {
            let j = choose|j: int| 0 <= j < rest.len() && rest[j] == x;
            assert(slots[j] == x);
        }
        if slots.contains(x) && x != slots.last() {
            let j = choose|j: int| 0 <= j < slots.len() && slots[j] == x;
            assert(rest[j] == x);
        }
    }
    assert(rest.to_set() =~= slots.to_set().remove(slots.last()));
}

proof fn lemma_one_added(slots: Seq<usize>, index: usize, count: nat)
    requires
        free_list(slots, count),
        index < count,
        !slots.contains(index),
    ensures
        free_list(slots.push(index), count),
        slots.push(index).to_set() == slots.to_set().insert(index),
{
    let more = slots.push(index);
    assert forall|x: usize| more.contains(x) <==> (slots.contains(x) || x == index) by {
        if more.contains(x) {
            let j = choose|j: int| 0 <= j < more.len() && more[j] == x;
            if j < slots.len() {
                assert(slots[j] == x);
            }
        }
        if slots.contains(x) {
            let j = choose|j: int| 0 <= j < slots.len() && slots[j] == x;
            assert(more[j] == x);
        }
        if x == index {
            assert(more[slots.len() as int] == x);
        }
    }
    assert(more.to_set() =~= slots.to_set().insert(index));
    assert forall|i: int, j: int| 0 <= i < more.len() && 0 <= j < more.len() && i != j implies more[i]
        != more[j] by {
        if i < slots.len() {
            assert(slots.contains(slots[i]));
        }
        if j < slots.len() {
            assert(slots.contains(slots[j]));
        }
    }
}

/// The positions `0..count`, in rising order.
fn all_positions(count: usize) -> (slots: Vec<usize>)
    ensures
        free_list(slots@, count as nat),
        slots@.len() == count,
        forall|i: usize| i < count <==> slots@.to_set().contains(i),
{
    let mut slots: Vec<usize> = Vec::new();
    let mut i: usize = 0;
    while i < count
        invariant
            0 <= i <= count,
            slots@.len() == i,
            forall|k: int| 0 <= k < i ==> slots@[k] == k,
        decreases count - i,
    {
        slots.push(i);
        i += 1;
    }
    proof {
        assert forall|x: usize| x < count <==> slots@.to_set().contains(x) by {
            if x < count {
                assert(slots@[x as int] == x);
            }
        }
    }
    slots
}

fn position_in(slots: &Vec<usize>, index: usize) -> (found: bool)
    ensures
        found == slots@.contains(index),
{
    let mut k: usize = 0;
    while k < slots.len()
        invariant
            0 <= k <= slots.len(),
            forall|j: int| 0 <= j < k ==> slots@[j] != index,
        decreases slots.len() - k,
    {
        if slots[k] == index {
            return true;
        }
        k += 1;
    }
    false
}

impl<I> View for ResourcePool<I> {
    type V = PoolView;

    closed spec fn view(&self) -> PoolView {
        PoolView {
            name_count: self.names@.len(),
            identity_count: self.identities@.len(),
            free_names: self.free_names@.to_set(),
            free_identities: self.free_identities@.to_set(),
        }
    }
}

impl<I> ResourcePool<I> {
    /// No position is listed twice as free, and every listed position
    /// exists.
    pub closed spec fn wf(&self) -> bool {
        &&& free_list(self.free_names@, self.names@.len())
        &&& free_list(self.free_identities@, self.identities@.len())
    }

    /// The names of the pool, by position.
    pub closed spec fn names(&self) -> Seq<String> {
        self.names@
    }

    /// The identities of the pool, by position.
    pub closed spec fn identities(&self) -> Seq<I> {
        self.identities@
    }

    /// A well-formed pool has a well-formed view that agrees with its
    /// arrays.
    pub proof fn lemma_view(&self)
        requires
            self.wf(),
        ensures
            self@.wf(),
            self@.name_count == self.names().len(),
            self@.identity_count == self.identities().len(),
    {
        vstd::seq_lib::seq_to_set_is_finite(self.free_names@);
        vstd::seq_lib::seq_to_set_is_finite(self.free_identities@);
        assert forall|i: usize| self@.free_names.contains(i) implies i < self@.name_count by {
            let j = choose|j: int| 0 <= j < self.free_names@.len() && self.free_names@[j] == i;
        }
        assert forall|i: usize| self@.free_identities.contains(i) implies i
            < self@.identity_count by {
            let j = choose|j: int|
                0 <= j < self.free_identities@.len() && self.free_identities@[j] == i;
        }
    }

    /// A pool in which every name and every identity is free.
    pub fn new(names: Vec<String>, identities: Vec<I>, rng: SmallRng) -> (pool: Self)
        ensures
            pool.wf(),
            pool.names() == names@,
            pool.identities() == identities@,
            pool@.name_count == names@.len(),
            pool@.identity_count == identities@.len(),
            forall|i: usize| i < names@.len() <==> pool@.free_names.contains(i),
            forall|i: usize| i < identities@.len() <==> pool@.free_identities.contains(i),
    {
        let free_names = all_positions(names.len());
        let free_identities = all_positions(identities.len());
        ResourcePool { names, identities, free_names, free_identities, rng }
    }

    /// How many names the pool has, free or lent.
    pub fn name_count(&self) -> (count: usize)
        ensures
            count == self@.name_count,
    {
        self.names.len()
    }

    /// How many identities the pool has, free or lent.
    pub fn identity_count(&self) -> (count: usize)
        ensures
            count == self@.identity_count,
    {
        self.identities.len()
    }

    /// How many names are free.
    pub fn available_names(&self) -> (count: usize)
        requires
            self.wf(),
        ensures
            count == self@.free_names.len(),
    {
        proof {
            self.free_names@.unique_seq_to_set();
        }
        self.free_names.len()
    }

    /// How many identities are free.
    pub fn available_identities(&self) -> (count: usize)
        requires
            self.wf(),
        ensures
            count == self@.free_identities.len(),
    {
        proof {
            self.free_identities@.unique_seq_to_set();
        }
        self.free_identities.len()
    }

    /// The name at `index`, if there is one.
    pub fn name(&self, index: usize) -> (name: Option<&String>)
        ensures
            index < self.names().len() ==> name == Some(&self.names()[index as int]),
            index >= self.names().len() ==> name is None,
    {
        if index < self.names.len() {
            Some(&self.names[index])
        } else {
            None
        }
    }

    /// The identity at `index`, if there is one.
    pub fn identity(&self, index: usize) -> (identity: Option<&I>)
        ensures
            index < self.identities().len() ==> identity == Some(&self.identities()[index as int]),
            index >= self.identities().len() ==> identity is None,
    {
        if index < self.identities.len() {
            Some(&self.identities[index])
        } else {
            None
        }
    }

    /// Whether the name at `index` is lent out.
    pub fn is_name_lent(&self, index: usize) -> (lent: bool)
        ensures
            lent == self@.name_lent(index),
    {
        index < self.names.len() && !position_in(&self.free_names, index)
    }

    /// Whether the identity at `index` is lent out.
    pub fn is_identity_lent(&self, index: usize) -> (lent: bool)
        ensures
            lent == self@.identity_lent(index),
    {
        index < self.identities.len() && !position_in(&self.free_identities, index)
    }

    /// Lends a name: shuffles the free positions, so that no name is
    /// favoured, and takes one of them. Fails when no name is free.
    pub fn allocate_name(&mut self) -> (lent: Result<usize, Exhausted>)
        requires
            old(self).wf(),
        ensures
            final(self).wf(),
            final(self).names() == old(self).names(),
            final(self).identities() == old(self).identities(),
            old(self)@.free_names.len() == 0 ==> lent is Err && final(self)@ == old(self)@,
            old(self)@.free_names.len() > 0 ==> lent is Ok && old(self)@.free_names.contains(
                lent.unwrap(),
            ) && final(self)@ == old(self)@.lend_name(lent.unwrap()),
    {
        let ghost before = self.free_names@;
        let ghost count = self.names@.len();
        proof {
            before.unique_seq_to_set();
        }
        shuffle(&mut self.free_names, &mut self.rng);
        let ghost mixed = self.free_names@;
        proof {
            lemma_reordered(before, mixed, count);
        }
        match self.free_names.pop() {
            Some(index) => {
                proof {
                    lemma_last_taken(mixed, count);
                    assert(self.free_names@ =~= mixed.drop_last());
                }
                Ok(index)
            },
            None => Err(Exhausted),
        }
    }

    /// Lends an identity, as [`ResourcePool::allocate_name`] lends a name.
    pub fn allocate_identity(&mut self) -> (lent: Result<usize, Exhausted>)
        requires
            old(self).wf(),
        ensures
            final(self).wf(),
            final(self).names() == old(self).names(),
            final(self).identities() == old(self).identities(),
            old(self)@.free_identities.len() == 0 ==> lent is Err && final(self)@ == old(self)@,
            old(self)@.free_identities.len() > 0 ==> lent is Ok && old(
                self,
            )@.free_identities.contains(lent.unwrap()) && final(self)@ == old(
                self,
            )@.lend_identity(lent.unwrap()),
    {
        let ghost before = self.free_identities@;
        let ghost count = self.identities@.len();
        proof {
            before.unique_seq_to_set();
        }
        shuffle(&mut self.free_identities, &mut self.rng);
        let ghost mixed = self.free_identities@;
        proof {
            lemma_reordered(before, mixed, count);
        }
        match self.free_identities.pop() {
            Some(index) => {
                proof {
                    lemma_last_taken(mixed, count);
                    assert(self.free_identities@ =~= mixed.drop_last());
                }
                Ok(index)
            },
            None => Err(Exhausted),
        }
    }

    /// Takes back the name at `index`, which must be lent out: the pool does
    /// not guard against a second return of the same name.
    pub fn release_name(&mut self, index: usize)
        requires
            old(self).wf(),
            old(self)@.name_lent(index),
        ensures
            final(self).wf(),
            final(self).names() == old(self).names(),
            final(self).identities() == old(self).identities(),
            final(self)@ == old(self)@.return_name(index),
            final(self)@.free_names.len() == old(self)@.free_names.len() + 1,
    {
        proof {
            lemma_one_added(self.free_names@, index, self.names@.len());
            self.free_names@.unique_seq_to_set();
            self.free_names@.push(index).unique_seq_to_set();
        }
        self.free_names.push(index);
    }

    /// Takes back the identity at `index`, which must be lent out.
    pub fn release_identity(&mut self, index: usize)
        requires
            old(self).wf(),
            old(self)@.identity_lent(index),
        ensures
            final(self).wf(),
            final(self).names() == old(self).names(),
            final(self).identities() == old(self).identities(),
            final(self)@ == old(self)@.return_identity(index),
            final(self)@.free_identities.len() == old(self)@.free_identities.len() + 1,
    {
        proof {
            lemma_one_added(self.free_identities@, index, self.identities@.len());
            self.free_identities@.unique_seq_to_set();
            self.free_identities@.push(index).unique_seq_to_set();
        }
        self.free_identities.push(index);
    }

    /// Takes back a name and an identity that an agent held. Both must be
    /// lent out. Afterwards exactly one more name and one more identity are
    /// free.
    pub fn release(&mut self, name_index: usize, identity_index: usize)
        requires
            old(self).wf(),
            old(self)@.name_lent(name_index),
            old(self)@.identity_lent(identity_index),
        ensures
            final(self).wf(),
            final(self).names() == old(self).names(),
            final(self).identities() == old(self).identities(),
            final(self)@ == old(self)@.release(name_index, identity_index),
            final(self)@.free_names.len() == old(self)@.free_names.len() + 1,
            final(self)@.free_identities.len() == old(self)@.free_identities.len() + 1,
    {
        self.release_name(name_index);
        self.release_identity(identity_index);
    }
}

} // verus!
