//! The token ledger: the stores it owns and the operations on them.

use vstd::prelude::*;
use crate::account::AccountId;
use crate::laws::{
    lemma_apply_consistent, lemma_balance_below_supply, lemma_balance_within_supply,
    lemma_burn_consistent, lemma_initial_consistent, lemma_mint_consistent,
    lemma_missing_token_has_no_spender, lemma_owner_has_balance, lemma_transfer_consistent,
};
use crate::model::{Error, LedgerState, Operation};
use crate::store::Store;

verus! {

/// A collection of non-fungible tokens. The ledger alone owns its stores:
/// they change through its operations and in no other way.
pub struct MyErc721 {
    name: String,
    symbol: String,
    minter: Option<AccountId>,
    owners: Store<u32, AccountId>,
    balances: Store<AccountId, u32>,
    token_approvals: Store<u32, AccountId>,
    operator_approvals: Store<(AccountId, AccountId), bool>,
    token_uri: Store<u32, String>,
    total_supply: u32,
}

impl View for MyErc721 {
    type V = LedgerState;

    closed spec fn view(&self) -> LedgerState {
        LedgerState {
            name: self.name@,
            symbol: self.symbol@,
            minter: self.minter,
            owners: self.owners@,
            balances: self.balances@.map_values(|b: u32| b as nat),
            token_approvals: self.token_approvals@,
            operator_approvals: self.operator_approvals@,
            token_uri: self.token_uri@.map_values(|u: String| u@),
            total_supply: self.total_supply as nat,
        }
    }
}

impl MyErc721 {
    /// Each store holds every key once.
    pub closed spec fn stores_wf(&self) -> bool {
        &&& self.owners.wf()
        &&& self.balances.wf()
        &&& self.token_approvals.wf()
        &&& self.operator_approvals.wf()
        &&& self.token_uri.wf()
    }

    /// The ledger is well formed: its stores are, and what they hold is
    /// consistent.
    pub open spec fn wf(&self) -> bool {
        &&& self.stores_wf()
        &&& self@.consistent()
    }

    /// A new, empty collection with the given minting rule.
    fn create(name: String, symbol: String, minter: Option<AccountId>) -> (ledger: MyErc721)
        ensures
            ledger.wf(),
            ledger@ == LedgerState::initial(name@, symbol@, minter),
    {
        let ledger = MyErc721 {
            name,
            symbol,
            minter,
            owners: Store::new(),
            balances: Store::new(),
            token_approvals: Store::new(),
            operator_approvals: Store::new(),
            token_uri: Store::new(),
            total_supply: 0,
        };
        proof {
            let s = LedgerState::initial(name@, symbol@, minter);
            assert(ledger@.balances =~= s.balances);
            assert(ledger@.token_uri =~= s.token_uri);
            lemma_initial_consistent(name@, symbol@, minter);
        }
        ledger
    }

    /// A new, empty collection in which anyone may mint.
    pub fn new(name: String, symbol: String) -> (ledger: MyErc721)
        ensures
            ledger.wf(),
            ledger@ == LedgerState::initial(name@, symbol@, None),
    {
        Self::create(name, symbol, None)
    }

    /// A new, empty collection in which only `minter` may mint.
    pub fn with_minter(name: String, symbol: String, minter: AccountId) -> (ledger: MyErc721)
        ensures
            ledger.wf(),
            ledger@ == LedgerState::initial(name@, symbol@, Some(minter)),
    {
        Self::create(name, symbol, Some(minter))
    }

    /// The recorded balance of `account`, zero where none is recorded.
    fn stored_balance(&self, account: &AccountId) -> (b: u32)
        requires
            self.stores_wf(),
        ensures
            b == self@.balance_of(*account),
    {
        match self.balances.get(account) {
            Some(b) => *b,
            None => 0,
        }
    }

    /// Whether a caller presenting `caller` may mint here.
    fn may_mint(&self, caller: Option<AccountId>) -> (r: bool)
        ensures
            r == self@.may_mint(caller),
    {
        match self.minter {
            None => true,
            Some(m) => match caller {
                Some(c) => c == m,
                None => false,
            },
        }
    }

    /// Creates `token_id` for `to` for a caller presenting `caller`: the one
    /// body behind both ways to mint.
    fn mint_with(
        &mut self,
        caller: Option<AccountId>,
        to: AccountId,
        token_id: u32,
        uri: String,
    ) -> (r: Result<(), Error>)
        requires
            old(self).wf(),
            old(self)@.mint_outcome(caller, token_id) is Ok ==> old(self)@.total_supply < u32::MAX,
        ensures
            final(self).wf(),
            r == old(self)@.mint_outcome(caller, token_id),
            final(self)@ == old(self)@.apply((Operation::Mint { caller, to, token_id, uri: uri@ })),
    {
        let ghost pre = self@;
        if self.owners.contains_key(&token_id) {
            return Err(Error::AlreadyExists);
        }
        if !self.may_mint(caller) {
            return Err(Error::Unauthorized);
        }
        let balance = self.stored_balance(&to);
        proof {
            lemma_balance_within_supply(pre, to);
        }
        self.owners.insert(token_id, to);
        self.balances.insert(to, balance + 1);
        self.token_uri.insert(token_id, uri);
        self.total_supply += 1;
        proof {
            let post = pre.minted(to, token_id, uri@);
            assert(self@.balances =~= post.balances);
            assert(self@.token_uri =~= post.token_uri);
            lemma_mint_consistent(pre, to, token_id, uri@);
        }
        Ok(())
    }

    /// Creates `token_id` for `to` with the metadata URI `uri`, presenting no
    /// identity. Refused as `AlreadyExists` where the token exists, else as
    /// `Unauthorized` where the collection has a minter.
    pub fn mint(&mut self, to: AccountId, token_id: u32, uri: String) -> (r: Result<(), Error>)
        requires
            old(self).wf(),
            old(self)@.mint_outcome(None, token_id) is Ok ==> old(self)@.total_supply < u32::MAX,
        ensures
            final(self).wf(),
            r == old(self)@.mint_outcome(None, token_id),
            final(self)@ == old(self)@.apply(
                (Operation::Mint { caller: None, to, token_id, uri: uri@ }),
            ),
    {
        self.mint_with(None, to, token_id, uri)
    }

    /// Creates `token_id` for `to` with the metadata URI `uri` on behalf of
    /// `caller`. Refused as `AlreadyExists` where the token exists, else as
    /// `Unauthorized` where the collection has a minter other than `caller`.
    pub fn mint_as(
        &mut self,
        caller: AccountId,
        to: AccountId,
        token_id: u32,
        uri: String,
    ) -> (r: Result<(), Error>)
        requires
            old(self).wf(),
            old(self)@.mint_outcome(Some(caller), token_id) is Ok ==> old(self)@.total_supply
                < u32::MAX,
        ensures
            final(self).wf(),
            r == old(self)@.mint_outcome(Some(caller), token_id),
            final(self)@ == old(self)@.apply(
                (Operation::Mint { caller: Some(caller), to, token_id, uri: uri@ }),
            ),
    {
        self.mint_with(Some(caller), to, token_id, uri)
    }

    /// Destroys `token_id`: its owner, URI and approved spender go, its
    /// owner's balance and the supply drop by one. Refused as `NotFound` where
    /// no such token exists.
    pub fn burn(&mut self, token_id: u32) -> (r: Result<(), Error>)
        requires
            old(self).wf(),
        ensures
            final(self).wf(),
            r == old(self)@.burn_outcome(token_id),
            final(self)@ == old(self)@.apply((Operation::Burn { token_id })),
    {
        let ghost pre = self@;
        let owner = match self.owners.get(&token_id) {
            Some(o) => *o,
            None => {
                return Err(Error::NotFound);
            },
        };
        let balance = self.stored_balance(&owner);
        proof {
            lemma_owner_has_balance(pre, token_id);
        }
        self.owners.remove(&token_id);
        self.token_uri.remove(&token_id);
        self.token_approvals.remove(&token_id);
        self.balances.insert(owner, balance - 1);
        self.total_supply -= 1;
        proof {
            let post = pre.burned(token_id);
            assert(self@.balances =~= post.balances);
            assert(self@.token_uri =~= post.token_uri);
            lemma_burn_consistent(pre, token_id);
        }
        Ok(())
    }

    /// Hands `token_id` from `from` to `to`. Refused as `NotFound` where no
    /// such token exists, else as `NotOwner` where `from` does not own it. A
    /// transfer to the owner itself goes through and changes nothing.
    pub fn transfer(&mut self, from: AccountId, to: AccountId, token_id: u32) -> (r: Result<(), Error>)
        requires
            old(self).wf(),
        ensures
            final(self).wf(),
            r == old(self)@.transfer_outcome(from, token_id),
            final(self)@ == old(self)@.apply((Operation::Transfer { from, to, token_id })),
    {
        let ghost pre = self@;
        let owner = match self.owners.get(&token_id) {
            Some(o) => *o,
            None => {
                return Err(Error::NotFound);
            },
        };
        if !(owner == from) {
            return Err(Error::NotOwner);
        }
        if from == to {
            return Ok(());
        }
        let from_balance = self.stored_balance(&from);
        let to_balance = self.stored_balance(&to);
        proof {
            lemma_owner_has_balance(pre, token_id);
            lemma_balance_below_supply(pre, token_id, to);
        }
        self.owners.insert(token_id, to);
        self.balances.insert(from, from_balance - 1);
        self.balances.insert(to, to_balance + 1);
        proof {
            let post = pre.transferred(from, to, token_id);
            assert(self@.balances =~= post.balances);
            lemma_transfer_consistent(pre, from, to, token_id);
        }
        Ok(())
    }

    /// Records `to` as the one approved spender of `token_id`, in place of
    /// any recorded before. Refused as `NotFound` where no such token exists,
    /// else as `SelfApproval` where `to` owns it.
    pub fn approve(&mut self, to: AccountId, token_id: u32) -> (r: Result<(), Error>)
        requires
            old(self).wf(),
        ensures
            final(self).wf(),
            r == old(self)@.approve_outcome(to, token_id),
            final(self)@ == old(self)@.apply((Operation::Approve { to, token_id })),
    {
        let ghost pre = self@;
        let owner = match self.owners.get(&token_id) {
            Some(o) => *o,
            None => {
                return Err(Error::NotFound);
            },
        };
        if owner == to {
            return Err(Error::SelfApproval);
        }
        self.token_approvals.insert(token_id, to);
        proof {
            lemma_apply_consistent(pre, Operation::Approve { to, token_id });
        }
        Ok(())
    }

    /// Records whether `caller` lets `operator` act on all of its tokens.
    pub fn set_approval_for_all(&mut self, caller: AccountId, operator: AccountId, approved: bool)
        requires
            old(self).wf(),
        ensures
            final(self).wf(),
            final(self)@ == old(self)@.operator_set(caller, operator, approved),
            final(self)@ == old(self)@.apply(
                (Operation::SetApprovalForAll { owner: caller, operator, approved }),
            ),
    {
        let ghost pre = self@;
        self.operator_approvals.insert((caller, operator), approved);
        proof {
            lemma_apply_consistent(
                pre,
                Operation::SetApprovalForAll { owner: caller, operator, approved },
            );
        }
    }

    /// The number of tokens that `owner` owns.
    pub fn balance_of(&self, owner: AccountId) -> (balance: u32)
        requires
            self.wf(),
        ensures
            balance == self@.balance_of(owner),
            balance == self@.owned_tokens(owner).len(),
    {
        self.stored_balance(&owner)
    }

    /// The owner of `token_id`, or `NotFound` where no such token exists.
    pub fn owner_of(&self, token_id: u32) -> (r: Result<AccountId, Error>)
        requires
            self.wf(),
        ensures
            r == self@.owner_of(token_id),
    {
        match self.owners.get(&token_id) {
            Some(o) => Ok(*o),
            None => Err(Error::NotFound),
        }
    }

    /// The collection's name.
    pub fn name(&self) -> (r: String)
        ensures
            r@ == self@.name,
    {
        self.name.clone()
    }

    /// The collection's symbol.
    pub fn symbol(&self) -> (r: String)
        ensures
            r@ == self@.symbol,
    {
        self.symbol.clone()
    }

    /// The only account that may mint, or `None` where anyone may.
    pub fn minter(&self) -> (r: Option<AccountId>)
        ensures
            r == self@.minter,
    {
        self.minter
    }

    /// The number of tokens that exist.
    pub fn total_supply(&self) -> (supply: u32)
        ensures
            supply == self@.total_supply,
    {
        self.total_supply
    }

    /// The metadata URI of `token_id`, or `NotFound` where no such token
    /// exists.
    pub fn token_uri(&self, token_id: u32) -> (r: Result<String, Error>)
        requires
            self.wf(),
        ensures
            match r {
                Ok(uri) => self@.uri_of(token_id) == Ok::<Seq<char>, Error>(uri@),
                Err(e) => self@.uri_of(token_id) == Err::<Seq<char>, Error>(e),
            },
            r is Ok <==> self@.owners.contains_key(token_id),
    {
        match self.token_uri.get(&token_id) {
            Some(uri) => Ok(uri.clone()),
            None => Err(Error::NotFound),
        }
    }

    /// The approved spender recorded for `token_id`, if any. A token that
    /// does not exist has none.
    pub fn get_approved(&self, token_id: u32) -> (r: Option<AccountId>)
        requires
            self.wf(),
        ensures
            r == self@.approved(token_id),
            !self@.owners.contains_key(token_id) ==> r is None,
    {
        proof {
            if !self@.owners.contains_key(token_id) {
                lemma_missing_token_has_no_spender(self@, token_id);
            }
        }
        match self.token_approvals.get(&token_id) {
            Some(a) => Some(*a),
            None => None,
        }
    }

    /// Whether `owner` currently lets `operator` act on all of its tokens.
    pub fn is_approved_for_all(&self, owner: AccountId, operator: AccountId) -> (r: bool)
        requires
            self.wf(),
        ensures
            r == self@.approved_for_all(owner, operator),
    {
        match self.operator_approvals.get(&(owner, operator)) {
            Some(approved) => *approved,
            None => false,
        }
    }
}

} // verus!
