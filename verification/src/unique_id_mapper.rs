//! The identifier pool: a swap-remove-backed set of the not-yet-issued
//! identifiers `1..=max_supply` of one (brand, tier) pair.
//!
//! A draw returns the identifier at a caller-chosen 1-based position,
//! overwrites that slot with the identifier in the last occupied slot, and
//! shrinks the pool by one. The body is straight-line code over a dense
//! array, so a draw costs the same whatever the pool's current length.

use vstd::prelude::*;

verus! {

use crate::common_storage::MintError;

/// The identifiers `1..=n`, in ascending order: the content of a freshly
/// initialized pool of size `n`.
pub open spec fn id_seq(n: nat) -> Seq<usize> {
    Seq::new(n, |i: int| (i + 1) as usize)
}

/// The pool content after drawing the 1-based `position`: the last element
/// moves into the drawn slot and the sequence loses its last slot.
pub open spec fn swap_remove_seq(s: Seq<usize>, position: int) -> Seq<usize> {
    s.update(position - 1, s.last()).drop_last()
}

/// The persistent pool of undrawn identifiers for one (brand, tier) pair.
#[derive(Debug)]
pub struct UniqueIdMapper {
    initialized: bool,
    ids: Vec<usize>,
}

impl View for UniqueIdMapper {
    type V = Seq<usize>;

    closed spec fn view(&self) -> Seq<usize> {
        self.ids@
    }
}

impl UniqueIdMapper {
    /// Whether [`UniqueIdMapper::initialize`] has already run on this pool.
    pub closed spec fn is_initialized(self) -> bool {
        self.initialized
    }

    /// An empty, not-yet-initialized pool.
    pub fn new() -> (r: Self)
        ensures
            !r.is_initialized(),
            r@ == Seq::<usize>::empty(),
    {
        UniqueIdMapper { initialized: false, ids: Vec::new() }
    }

    /// Fills the pool with the identifiers `1..=max_supply`. Fails with
    /// `AlreadyInitialized`, leaving the pool untouched, if it was
    /// initialized before.
    pub fn initialize(&mut self, max_supply: usize) -> (r: Result<(), MintError>)
        requires
            max_supply >= 1,
        ensures
            match r {
                Ok(()) => !old(self).is_initialized() && final(self).is_initialized()
                    && final(self)@ == id_seq(max_supply as nat),
                Err(e) => e == MintError::AlreadyInitialized && old(self).is_initialized()
                    && *final(self) == *old(self),
            },
    {
        if self.initialized {
            return Err(MintError::AlreadyInitialized);
        }
        self.initialized = true;
        let mut ids: Vec<usize> = Vec::new();
        while ids.len() < max_supply
            invariant
                ids@.len() <= max_supply,
                ids@ == id_seq(ids@.len()),
            decreases max_supply - ids@.len(),
        {
            let filled = ids.len();
            ids.push(filled + 1);
            proof {
                assert(ids@ =~= id_seq(ids@.len()));
            }
        }
        self.ids = ids;
        Ok(())
    }

    /// How many identifiers are still undrawn.
    pub fn len(&self) -> (r: usize)
        ensures
            r == self@.len(),
    {
        self.ids.len()
    }

    /// Returns the identifier at the 1-based `position` without removing it.
    pub fn get(&self, position: usize) -> (r: Result<usize, MintError>)
        ensures
            match r {
                Ok(v) => 1 <= position <= self@.len() && v == self@[position - 1],
                Err(e) => e == MintError::IndexOutOfRange && !(1 <= position <= self@.len()),
            },
    {
        if position < 1 || position > self.ids.len() {
            return Err(MintError::IndexOutOfRange);
        }
        Ok(self.ids[position - 1])
    }

    /// Draws the identifier at the 1-based `position` and removes it from
    /// the pool: the last slot's identifier moves into the drawn slot and
    /// the pool shrinks by one. A single swap, no traversal.
    ///
    /// Fails with `PoolExhausted` on an empty pool and `IndexOutOfRange`
    /// when `position` is not in `1..=len`; either failure leaves the pool
    /// untouched.
    pub fn get_and_swap_remove(&mut self, position: usize) -> (r: Result<usize, MintError>)
        ensures
            match r {
                Ok(v) => {
                    &&& old(self)@.len() > 0
                    &&& 1 <= position <= old(self)@.len()
                    &&& v == old(self)@[position - 1]
                    &&& final(self)@ == swap_remove_seq(old(self)@, position as int)
                    &&& final(self)@.len() == old(self)@.len() - 1
                    &&& final(self).is_initialized() == old(self).is_initialized()
                },
                Err(e) => *final(self) == *old(self) && (
                    (e == MintError::PoolExhausted && old(self)@.len() == 0)
                    || (e == MintError::IndexOutOfRange && old(self)@.len() > 0
                        && !(1 <= position <= old(self)@.len()))
                ),
            },
    {
        let len = self.ids.len();
        if len == 0 {
            return Err(MintError::PoolExhausted);
        }
        if position < 1 || position > len {
            return Err(MintError::IndexOutOfRange);
        }
        Ok(self.ids.swap_remove(position - 1))
    }
}

/// Whether each of `positions` in turn is a legal 1-based draw position for
/// the pool as it stands at that step, starting from content `s`.
pub open spec fn valid_draw_positions(s: Seq<usize>, positions: Seq<int>) -> bool
    decreases positions.len(),
{
    positions.len() == 0 || {
        &&& 1 <= positions[0] <= s.len()
        &&& valid_draw_positions(swap_remove_seq(s, positions[0]), positions.drop_first())
    }
}

/// The pool content left after drawing `positions` in turn from content `s`.
pub open spec fn remaining_after_draws(s: Seq<usize>, positions: Seq<int>) -> Seq<usize>
    decreases positions.len(),
{
    if positions.len() == 0 {
        s
    } else {
        remaining_after_draws(swap_remove_seq(s, positions[0]), positions.drop_first())
    }
}

/// The identifiers returned by drawing `positions` in turn from content `s`.
pub open spec fn drawn_values(s: Seq<usize>, positions: Seq<int>) -> Seq<usize>
    decreases positions.len(),
{
    if positions.len() == 0 {
        Seq::empty()
    } else {
        seq![s[positions[0] - 1]] + drawn_values(
            swap_remove_seq(s, positions[0]),
            positions.drop_first(),
        )
    }
}

/// A fresh pool's content has no repeats, and every identifier lies in
/// `1..=n`.
pub proof fn lemma_id_seq_properties(n: nat)
    requires
        n <= usize::MAX,
    ensures
        id_seq(n).no_duplicates(),
        forall|i: int| 0 <= i < n ==> 1 <= #[trigger] id_seq(n)[i] <= n,
{
    assert forall|i: int, j: int|
        0 <= i < n && 0 <= j < n && i != j implies id_seq(n)[i] != id_seq(n)[j] by {
        assert(id_seq(n)[i] == i + 1);
        assert(id_seq(n)[j] == j + 1);
    }
    assert(id_seq(n).no_duplicates());
    assert forall|i: int| 0 <= i < n implies 1 <= #[trigger] id_seq(n)[i] <= n by {
        assert(id_seq(n)[i] == i + 1);
    }
}

/// One draw removes exactly one instance of the identifier at the drawn
/// position and moves nothing else in or out of the pool.
pub proof fn lemma_swap_remove_multiset(s: Seq<usize>, position: int)
    requires
        1 <= position <= s.len(),
    ensures
        swap_remove_seq(s, position).to_multiset() =~= s.to_multiset().remove(s[position - 1]),
{
    broadcast use vstd::seq_lib::group_to_multiset_ensures;
    broadcast use vstd::multiset::group_multiset_axioms;
    broadcast use vstd::multiset::group_multiset_properties;

    let t = s.update(position - 1, s.last());
    assert(t.drop_last() =~= t.remove(t.len() - 1));
    assert(t[t.len() - 1] == s.last());
    assert(s.contains(s[position - 1]));
    assert(swap_remove_seq(s, position).to_multiset() =~= s.to_multiset().remove(
        s[position - 1],
    ));
}

/// Every draw shrinks the pool by exactly one, so no valid draw sequence is
/// longer than the pool, and each draw returns exactly one identifier.
pub proof fn lemma_drain_lengths(s: Seq<usize>, positions: Seq<int>)
    requires
        valid_draw_positions(s, positions),
    ensures
        positions.len() <= s.len(),
        remaining_after_draws(s, positions).len() == s.len() - positions.len(),
        drawn_values(s, positions).len() == positions.len(),
    decreases positions.len(),
{
    if positions.len() > 0 {
        lemma_drain_lengths(swap_remove_seq(s, positions[0]), positions.drop_first());
    }
}

/// Appending one more draw to a valid draw sequence is valid exactly when
/// the extra position is legal for whatever the earlier draws left behind.
pub proof fn lemma_valid_positions_push(s: Seq<usize>, positions: Seq<int>, extra: int)
    requires
        valid_draw_positions(s, positions),
    ensures
        valid_draw_positions(s, positions.push(extra)) <==> 1 <= extra
            <= remaining_after_draws(s, positions).len(),
    decreases positions.len(),
{
    let ps = positions.push(extra);
    if positions.len() == 0 {
        assert(ps.len() == 1);
        assert(ps[0] == extra);
        assert(ps.drop_first() =~= Seq::<int>::empty());
        assert(valid_draw_positions(swap_remove_seq(s, extra), ps.drop_first()));
        assert(valid_draw_positions(s, ps) <==> 1 <= extra <= s.len());
    } else {
        let s1 = swap_remove_seq(s, positions[0]);
        assert(ps[0] == positions[0]);
        assert(ps.drop_first() =~= positions.drop_first().push(extra));
        lemma_valid_positions_push(s1, positions.drop_first(), extra);
        assert(valid_draw_positions(s, ps) <==> valid_draw_positions(s1, ps.drop_first()));
        assert(remaining_after_draws(s, positions) == remaining_after_draws(
            s1,
            positions.drop_first(),
        ));
    }
}

/// Law: a pool initialized with `n` identifiers admits exactly `n`
/// successful draws. No valid draw sequence is longer than `n`; after `n`
/// valid draws the pool is empty and no further draw position is legal, so
/// the next draw must fail with `PoolExhausted`.
pub proof fn lemma_pool_yields_exactly_n_draws(n: nat, positions: Seq<int>)
    requires
        valid_draw_positions(id_seq(n), positions),
    ensures
        positions.len() <= n,
        positions.len() == n ==> remaining_after_draws(id_seq(n), positions).len() == 0,
        positions.len() == n ==> forall|extra: int|
            !valid_draw_positions(id_seq(n), positions.push(extra)),
{
    lemma_drain_lengths(id_seq(n), positions);
    if positions.len() == n {
        assert forall|extra: int| !valid_draw_positions(id_seq(n), positions.push(extra)) by {
            lemma_valid_positions_push(id_seq(n), positions, extra);
        }
    }
}

/// Law: draws neither lose nor duplicate identifiers. However the draw
/// positions are chosen, the identifiers drawn so far and the identifiers
/// still in the pool together are exactly the pool's starting content,
/// multiplicities included.
pub proof fn lemma_draws_preserve_identifiers(s: Seq<usize>, positions: Seq<int>)
    requires
        valid_draw_positions(s, positions),
    ensures
        drawn_values(s, positions).to_multiset().add(
            remaining_after_draws(s, positions).to_multiset(),
        ) =~= s.to_multiset(),
    decreases positions.len(),
{
    broadcast use vstd::seq_lib::group_to_multiset_ensures;
    broadcast use vstd::multiset::group_multiset_axioms;

    if positions.len() == 0 {
        let d = drawn_values(s, positions);
        assert(d.len() == 0);
        assert forall|x: usize| d.to_multiset().count(x) == 0 by {
            assert(!d.contains(x));
        }
    } else {
        let v = s[positions[0] - 1];
        let s1 = swap_remove_seq(s, positions[0]);
        let d1 = drawn_values(s1, positions.drop_first());
        let rem = remaining_after_draws(s, positions);
        lemma_swap_remove_multiset(s, positions[0]);
        lemma_draws_preserve_identifiers(s1, positions.drop_first());
        assert(d1.insert(0, v) =~= seq![v] + d1);
        assert((seq![v] + d1).to_multiset() =~= d1.to_multiset().insert(v));
        assert(s.contains(v));
        assert(s.to_multiset().count(v) > 0);
        assert forall|x: usize|
            drawn_values(s, positions).to_multiset().add(rem.to_multiset()).count(x)
                == s.to_multiset().count(x) by {
            assert(d1.to_multiset().add(rem.to_multiset()).count(x) == s1.to_multiset().count(x));
            assert(s1.to_multiset().count(x) == s.to_multiset().remove(v).count(x));
        }
    }
}

/// Law: exhaustively draining a freshly initialized pool of size `n`
/// returns every identifier of `{1, ..., n}` exactly once: the multiset of
/// drawn values is `{1, ..., n}` and the drawn sequence has no repeats.
pub proof fn lemma_full_drain_yields_each_id_once(n: nat, positions: Seq<int>)
    requires
        n <= usize::MAX,
        valid_draw_positions(id_seq(n), positions),
        positions.len() == n,
    ensures
        drawn_values(id_seq(n), positions).to_multiset() =~= id_seq(n).to_multiset(),
        drawn_values(id_seq(n), positions).no_duplicates(),
{
    broadcast use vstd::seq_lib::group_to_multiset_ensures;
    broadcast use vstd::multiset::group_multiset_axioms;

    let d = drawn_values(id_seq(n), positions);
    let rem = remaining_after_draws(id_seq(n), positions);
    lemma_drain_lengths(id_seq(n), positions);
    lemma_draws_preserve_identifiers(id_seq(n), positions);
    assert(rem.len() == 0);
    assert forall|x: usize| rem.to_multiset().count(x) == 0 by {
        assert(!rem.contains(x));
    }
    assert(d.to_multiset() =~= id_seq(n).to_multiset());
    lemma_id_seq_properties(n);
    id_seq(n).lemma_multiset_has_no_duplicates();
    d.lemma_multiset_has_no_duplicates_conv();
}

} // verus!
