//! The payment ledger: the accumulated, not-yet-claimed purchase payments,
//! one balance per payment token, credited by every successful purchase and
//! emptied by the configured claim address.

use vstd::prelude::*;

verus! {

use crate::NftMinter;
use crate::common_storage::{MintError, MintPayment, string_eq};

/// Whether the ledger holds an entry for `token`.
pub open spec fn ledger_has_token(ledger: Seq<MintPayment>, token: Seq<char>) -> bool {
    exists|i: int| 0 <= i < ledger.len() && (#[trigger] ledger[i]).token_id@ == token
}

/// The index of the ledger entry for `token`.
pub open spec fn ledger_token_index(ledger: Seq<MintPayment>, token: Seq<char>) -> int {
    choose|i: int| 0 <= i < ledger.len() && (#[trigger] ledger[i]).token_id@ == token
}

/// The accumulated unclaimed amount for `token`; zero when no entry exists.
pub open spec fn ledger_amount(ledger: Seq<MintPayment>, token: Seq<char>) -> int {
    if ledger_has_token(ledger, token) {
        ledger[ledger_token_index(ledger, token)].amount as int
    } else {
        0
    }
}

impl NftMinter {
    /// Credits one purchase payment to the ledger: the balance of
    /// `token_id` grows by exactly `amount` and no other balance moves.
    pub fn add_mint_payment(&mut self, token_id: &String, amount: u64)
        requires
            old(self).wf(),
            ledger_amount(old(self).mint_payments@, token_id@) + amount <= u128::MAX,
        ensures
            final(self).wf(),
            ledger_amount(final(self).mint_payments@, token_id@) == ledger_amount(
                old(self).mint_payments@,
                token_id@,
            ) + amount,
            forall|t: Seq<char>|
                t != token_id@ ==> ledger_amount(final(self).mint_payments@, t) == ledger_amount(
                    old(self).mint_payments@,
                    t,
                ),
            final(self).brands == old(self).brands,
            final(self).staged_brands == old(self).staged_brands,
            final(self).collections_category == old(self).collections_category,
            final(self).royalties_claim_address == old(self).royalties_claim_address,
            final(self).mint_payments_claim_address == old(self).mint_payments_claim_address,
            final(self).max_nfts_per_transaction == old(self).max_nfts_per_transaction,
    {
        let ghost pre = self.mint_payments@;
        let n = self.mint_payments.len();
        let mut i: usize = 0;
        while i < n
            invariant
                i <= n,
                n == self.mint_payments@.len(),
                *self == *old(self),
                pre == self.mint_payments@,
                old(self).wf(),
                ledger_amount(old(self).mint_payments@, token_id@) + amount <= u128::MAX,
                forall|j: int|
                    0 <= j < i ==> (#[trigger] self.mint_payments@[j]).token_id@ != token_id@,
            decreases n - i,
        {
            if string_eq(&self.mint_payments[i].token_id, token_id) {
                proof {
                    assert(pre[i as int].token_id@ == token_id@);
                    assert(ledger_has_token(pre, token_id@));
                    let j = ledger_token_index(pre, token_id@);
                    assert(0 <= j < pre.len() && pre[j].token_id@ == token_id@);
                    assert(j == i);
                }
                let entry = &mut self.mint_payments[i];
                entry.amount = entry.amount + (amount as u128);
                proof {
                    let post = self.mint_payments@;
                    assert(post =~= pre.update(i as int, post[i as int]));
                    assert(post[i as int].token_id@ == token_id@);
                    assert(ledger_has_token(post, token_id@));
                    let j2 = ledger_token_index(post, token_id@);
                    assert(0 <= j2 < post.len() && post[j2].token_id@ == token_id@);
                    assert forall|a: int, b: int|
                        0 <= a < b < post.len() implies (#[trigger] post[a]).token_id@ != (
                    #[trigger] post[b]).token_id@ by {
                        assert(post[a].token_id == pre[a].token_id || a == i);
                        assert(post[b].token_id == pre[b].token_id || b == i);
                    }
                    assert(j2 == i);
                    assert forall|t: Seq<char>| t != token_id@ implies ledger_amount(post, t)
                        == ledger_amount(pre, t) by {
                        assert(forall|k: int|
                            0 <= k < post.len() ==> (#[trigger] post[k]).token_id@ == pre[
                                k
                            ].token_id@);
                        if ledger_has_token(pre, t) {
                            let a = ledger_token_index(pre, t);
                            assert(pre[a].token_id@ == t);
                            assert(post[a].token_id@ == t);
                            assert(ledger_has_token(post, t));
                            let b = ledger_token_index(post, t);
                            assert(post[b].token_id@ == t);
                            assert(b != i);
                            assert(a != i);
                            assert(b == a);
                        } else {
                            assert(!ledger_has_token(post, t));
                        }
                    }
                }
                return ;
            }
            i = i + 1;
        }
        let entry = MintPayment { token_id: token_id.clone(), amount: amount as u128 };
        self.mint_payments.push(entry);
        proof {
            let post = self.mint_payments@;
            assert(!ledger_has_token(pre, token_id@));
            assert(post[n as int].token_id@ == token_id@);
            assert(ledger_has_token(post, token_id@));
            assert forall|a: int, b: int|
                0 <= a < b < post.len() implies (#[trigger] post[a]).token_id@ != (
            #[trigger] post[b]).token_id@ by {
                if b < n {
                    assert(post[a] == pre[a] && post[b] == pre[b]);
                } else {
                    assert(post[a] == pre[a]);
                    assert(post[b].token_id@ == token_id@);
                }
            }
            let j2 = ledger_token_index(post, token_id@);
            assert(0 <= j2 < post.len() && post[j2].token_id@ == token_id@);
            assert(j2 == n);
            assert forall|t: Seq<char>| t != token_id@ implies ledger_amount(post, t)
                == ledger_amount(pre, t) by {
                if ledger_has_token(pre, t) {
                    let a = ledger_token_index(pre, t);
                    assert(pre[a].token_id@ == t);
                    assert(post[a].token_id@ == t);
                    assert(ledger_has_token(post, t));
                    let b = ledger_token_index(post, t);
                    assert(post[b].token_id@ == t);
                    assert(b != n);
                    assert(post[b] == pre[b]);
                    assert(b == a);
                } else {
                    if ledger_has_token(post, t) {
                        let b = ledger_token_index(post, t);
                        assert(post[b].token_id@ == t);
                        assert(b == n);
                        assert(false);
                    }
                }
            }
        }
    }

    /// Transfers the entire current balance of one payment token to the
    /// configured claim address and zeroes that balance; the other
    /// balances stand. Any other caller is refused and nothing moves.
    pub fn claim_mint_payment_token(&mut self, caller: u64, token_id: &String) -> (r: Result<
        u128,
        MintError,
    >)
        requires
            old(self).wf(),
        ensures
            final(self).wf(),
            match r {
                Ok(amount) => {
                    &&& caller == old(self).mint_payments_claim_address
                    &&& amount == ledger_amount(old(self).mint_payments@, token_id@)
                    &&& ledger_amount(final(self).mint_payments@, token_id@) == 0
                    &&& forall|t: Seq<char>|
                        t != token_id@ ==> ledger_amount(final(self).mint_payments@, t)
                            == ledger_amount(old(self).mint_payments@, t)
                    &&& final(self).brands == old(self).brands
                    &&& final(self).staged_brands == old(self).staged_brands
                    &&& final(self).collections_category == old(self).collections_category
                    &&& final(self).royalties_claim_address == old(self).royalties_claim_address
                    &&& final(self).mint_payments_claim_address == old(
                        self,
                    ).mint_payments_claim_address
                    &&& final(self).max_nfts_per_transaction == old(self).max_nfts_per_transaction
                },
                Err(e) => e == MintError::NotClaimAddress && caller != old(
                    self,
                ).mint_payments_claim_address && *final(self) == *old(self),
            },
    {
        if caller != self.mint_payments_claim_address {
            return Err(MintError::NotClaimAddress);
        }
        let ghost pre = self.mint_payments@;
        let n = self.mint_payments.len();
        let mut i: usize = 0;
        while i < n
            invariant
                i <= n,
                n == self.mint_payments@.len(),
                *self == *old(self),
                pre == self.mint_payments@,
                forall|j: int|
                    0 <= j < i ==> (#[trigger] self.mint_payments@[j]).token_id@ != token_id@,
            decreases n - i,
        {
            if string_eq(&self.mint_payments[i].token_id, token_id) {
                proof {
                    assert(pre[i as int].token_id@ == token_id@);
                    assert(ledger_has_token(pre, token_id@));
                    let j = ledger_token_index(pre, token_id@);
                    assert(0 <= j < pre.len() && pre[j].token_id@ == token_id@);
                    assert(j == i);
                }
                let entry = self.mint_payments.remove(i);
                proof {
                    let post = self.mint_payments@;
                    assert(post == pre.remove(i as int));
                    assert forall|a: int|
                        0 <= a < post.len() implies #[trigger] post[a] == (
                    if a < i {
                        pre[a]
                    } else {
                        pre[a + 1]
                    }) by {}
                    assert forall|a: int, b: int|
                        0 <= a < b < post.len() implies (#[trigger] post[a]).token_id@ != (
                    #[trigger] post[b]).token_id@ by {
                        let a0 = if a < i {
                            a
                        } else {
                            a + 1
                        };
                        let b0 = if b < i {
                            b
                        } else {
                            b + 1
                        };
                        assert(post[a] == pre[a0] && post[b] == pre[b0]);
                    }
                    assert(!ledger_has_token(post, token_id@)) by {
                        if ledger_has_token(post, token_id@) {
                            let a = choose|a: int|
                                0 <= a < post.len() && (#[trigger] post[a]).token_id@ == token_id@;
                            let a0 = if a < i {
                                a
                            } else {
                                a + 1
                            };
                            assert(post[a] == pre[a0]);
                            assert(false);
                        }
                    }
                    assert forall|t: Seq<char>| t != token_id@ implies ledger_amount(post, t)
                        == ledger_amount(pre, t) by {
                        if ledger_has_token(pre, t) {
                            let a = ledger_token_index(pre, t);
                            assert(pre[a].token_id@ == t);
                            assert(a != i);
                            let a1 = if a < i {
                                a
                            } else {
                                a - 1
                            };
                            assert(post[a1] == pre[a]);
                            assert(ledger_has_token(post, t));
                            let b = ledger_token_index(post, t);
                            assert(post[b].token_id@ == t);
                            let b0 = if b < i {
                                b
                            } else {
                                b + 1
                            };
                            assert(post[b] == pre[b0]);
                            assert(b0 == a);
                        } else {
                            if ledger_has_token(post, t) {
                                let b = ledger_token_index(post, t);
                                assert(post[b].token_id@ == t);
                                let b0 = if b < i {
                                    b
                                } else {
                                    b + 1
                                };
                                assert(post[b] == pre[b0]);
                                assert(false);
                            }
                        }
                    }
                }
                return Ok(entry.amount);
            }
            i = i + 1;
        }
        proof {
            assert(!ledger_has_token(pre, token_id@));
        }
        Ok(0)
    }

    /// Hands the whole ledger to the configured claim address and zeroes
    /// it. Any other caller is refused and nothing moves.
    pub fn claim_mint_payments(&mut self, caller: u64) -> (r: Result<Vec<MintPayment>, MintError>)
        requires
            old(self).wf(),
        ensures
            final(self).wf(),
            match r {
                Ok(payments) => {
                    &&& caller == old(self).mint_payments_claim_address
                    &&& payments == old(self).mint_payments
                    &&& final(self).mint_payments@.len() == 0
                    &&& final(self).brands == old(self).brands
                    &&& final(self).staged_brands == old(self).staged_brands
                    &&& final(self).collections_category == old(self).collections_category
                    &&& final(self).royalties_claim_address == old(self).royalties_claim_address
                    &&& final(self).mint_payments_claim_address == old(
                        self,
                    ).mint_payments_claim_address
                    &&& final(self).max_nfts_per_transaction == old(self).max_nfts_per_transaction
                },
                Err(e) => e == MintError::NotClaimAddress && caller != old(
                    self,
                ).mint_payments_claim_address && *final(self) == *old(self),
            },
    {
        if caller != self.mint_payments_claim_address {
            return Err(MintError::NotClaimAddress);
        }
        let mut payments: Vec<MintPayment> = Vec::new();
        core::mem::swap(&mut payments, &mut self.mint_payments);
        Ok(payments)
    }
}

} // verus!
