use vstd::prelude::*;

use crate::recipe::{recs_view, Recipe, RecipeV};

verus! {

/// Why a store operation was refused.
#[derive(Clone, Copy, Debug, PartialEq, Eq, Structural)]
pub enum StoreError {
    /// An index-based operation named a position outside the collection.
    IndexOutOfRange,
    /// A random pick was asked of an empty collection.
    EmptyCollection,
}

/// The ordered collection of records.
///
/// Insertion order is the only addressing scheme: a record's position is its
/// identity for the lifetime of a run. The view of a store is the sequence of
/// its records' values, in that order.
pub struct Store {
    recipes: Vec<Recipe>,
}

impl View for Store {
    type V = Seq<RecipeV>;

    closed spec fn view(&self) -> Seq<RecipeV> {
        self.recipes@.map_values(|r: Recipe| r@)
    }
}

/// Uniform selection relies on `rand::random_range` over `0..n`: the result
/// lies in `[0, n)`, each value equally likely; the call panics only on an
/// empty range, which the precondition rules out.
#[verifier::external_body]
fn random_below(n: usize) -> (r: usize)
    requires
        1 <= n,
    ensures
        r < n,
{
    rand::random_range(0..n)
}

impl Store {
    /// A store with no records.
    pub fn new() -> (s: Store)
        ensures
            s@ == Seq::<RecipeV>::empty(),
    {
        let s = Store { recipes: Vec::new() };
        proof {
            assert(s@ =~= Seq::<RecipeV>::empty());
        }
        s
    }

    /// A store holding exactly the given records, in their order.
    pub fn from_records(v: Vec<Recipe>) -> (s: Store)
        ensures
            s@ == recs_view(v@),
    {
        let s = Store { recipes: v };
        proof {
            assert(s@ =~= recs_view(s.recipes@));
        }
        s
    }

    /// How many records are held.
    pub fn len(&self) -> (n: usize)
        ensures
            n == self@.len(),
    {
        self.recipes.len()
    }

    /// Whether no record is held.
    pub fn is_empty(&self) -> (b: bool)
        ensures
            b == (self@.len() == 0),
    {
        self.recipes.len() == 0
    }

    /// Adds a record at the end. Always succeeds.
    pub fn append(&mut self, r: Recipe)
        ensures
            final(self)@ == old(self)@.push(r@),
    {
        self.recipes.push(r);
        proof {
            assert(final(self)@ =~= old(self)@.push(r@));
        }
    }

    /// A copy of every record, in insertion order.
    pub fn list(&self) -> (v: Vec<Recipe>)
        ensures
            recs_view(v@) == self@,
            v@.len() == self@.len(),
    {
        let mut v: Vec<Recipe> = Vec::new();
        let n = self.recipes.len();
        let mut i: usize = 0;
        while i < n
            invariant
                i <= n,
                n == self.recipes.len(),
                v@.len() == i,
                forall|k: int| 0 <= k < i ==> v@[k]@ == self.recipes@[k]@,
            decreases n - i,
        {
            v.push(self.recipes[i].clone());
            i += 1;
        }
        proof {
            assert(recs_view(v@) =~= self@);
        }
        v
    }

    /// Removes and returns the record at `i`, shifting later records down.
    /// An invalid index is refused and leaves the collection unchanged.
    pub fn remove_at(&mut self, i: usize) -> (r: Result<Recipe, StoreError>)
        ensures
            i < old(self)@.len() ==> (r matches Ok(rec) && rec@ == old(self)@[i as int]
                && final(self)@ == old(self)@.remove(i as int)),
            i >= old(self)@.len() ==> r == Err::<Recipe, StoreError>(StoreError::IndexOutOfRange)
                && final(self)@ == old(self)@,
    {
        if i < self.recipes.len() {
            let rec = self.recipes.remove(i);
            proof {
                assert(final(self)@ =~= old(self)@.remove(i as int));
            }
            Ok(rec)
        } else {
            Err(StoreError::IndexOutOfRange)
        }
    }

    /// Picks one record uniformly at random; refused on an empty collection.
    /// The records themselves never change.
    pub fn pick_random(&mut self) -> (r: Result<Recipe, StoreError>)
        ensures
            final(self)@ == old(self)@,
            old(self)@.len() == 0 ==> r == Err::<Recipe, StoreError>(StoreError::EmptyCollection),
            old(self)@.len() > 0 ==> (r matches Ok(rec) && exists|i: int|
                0 <= i < old(self)@.len() && rec@ == old(self)@[i]),
    {
        let n = self.recipes.len();
        if n == 0 {
            Err(StoreError::EmptyCollection)
        } else {
            let i = random_below(n);
            let rec = self.recipes[i].clone();
            proof {
                assert(rec@ == old(self)@[i as int]);
            }
            Ok(rec)
        }
    }
}

/// The records after applying a sequence of additions, one after another.
pub open spec fn apply_adds(pre: Seq<RecipeV>, adds: Seq<RecipeV>) -> Seq<RecipeV>
    decreases adds.len(),
{
    if adds.len() == 0 {
        pre
    } else {
        apply_adds(pre.push(adds[0]), adds.drop_first())
    }
}

/// Adding any sequence of records, in any starting state, yields exactly the
/// prior records followed by the added ones, in submission order.
pub proof fn lemma_adds_in_submission_order(pre: Seq<RecipeV>, adds: Seq<RecipeV>)
    ensures
        apply_adds(pre, adds) == pre + adds,
    decreases adds.len(),
{
    if adds.len() == 0 {
        assert(apply_adds(pre, adds) =~= pre + adds);
    } else {
        lemma_adds_in_submission_order(pre.push(adds[0]), adds.drop_first());
        assert(pre.push(adds[0]) + adds.drop_first() =~= pre + adds);
    }
}

/// Removing a valid index shortens the collection by exactly one and keeps
/// every remaining record in its relative order.
pub proof fn lemma_remove_preserves_order(s: Seq<RecipeV>, i: int)
    requires
        0 <= i < s.len(),
    ensures
        s.remove(i).len() == s.len() - 1,
        forall|j: int| 0 <= j < i ==> s.remove(i)[j] == s[j],
        forall|j: int| i <= j < s.len() - 1 ==> s.remove(i)[j] == s[j + 1],
{
}

} // verus!
