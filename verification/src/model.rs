//! The ledger as a mathematical state machine: its state, its operations,
//! the outcome and effect of each operation, and the consistency rule that every
//! history keeps.

use vstd::prelude::*;
use crate::account::AccountId;

verus! {

/// Why an operation was refused. A refused operation changes nothing.
#[derive(Clone, Copy, Debug, PartialEq, Eq, Structural)]
pub enum Error {
    /// A token with this id exists already.
    AlreadyExists,
    /// No token with this id exists.
    NotFound,
    /// The caller may not mint in this collection.
    Unauthorized,
    /// The account named as sender does not own the token.
    NotOwner,
    /// The account to approve is the token's owner.
    SelfApproval,
}

/// Everything a ledger holds.
pub struct LedgerState {
    /// The collection's name.
    pub name: Seq<char>,
    /// The collection's symbol.
    pub symbol: Seq<char>,
    /// The only account that may mint, or `None` where anyone may.
    pub minter: Option<AccountId>,
    /// The owner of each existing token. A token exists exactly when it has
    /// an entry here.
    pub owners: Map<u32, AccountId>,
    /// The recorded balance of each account that ever received a token.
    pub balances: Map<AccountId, nat>,
    /// The approved spender recorded for an existing token, if one was
    /// approved since the token was minted.
    pub token_approvals: Map<u32, AccountId>,
    /// Whether an owner (first) lets an operator (second) act on all of its
    /// tokens.
    pub operator_approvals: Map<(AccountId, AccountId), bool>,
    /// The metadata URI of each existing token.
    pub token_uri: Map<u32, Seq<char>>,
    /// The number of existing tokens.
    pub total_supply: nat,
}

/// One call on a ledger, with its arguments.
pub enum Operation {
    /// Create `token_id` for `to`. `caller` is the identity presented, if any.
    Mint { caller: Option<AccountId>, to: AccountId, token_id: u32, uri: Seq<char> },
    /// Destroy `token_id`.
    Burn { token_id: u32 },
    /// Hand `token_id` from `from` to `to`.
    Transfer { from: AccountId, to: AccountId, token_id: u32 },
    /// Record `to` as the approved spender of `token_id`.
    Approve { to: AccountId, token_id: u32 },
    /// Record whether `owner` lets `operator` act on all of its tokens.
    SetApprovalForAll { owner: AccountId, operator: AccountId, approved: bool },
}

impl LedgerState {
    /// The ledger of a new collection: no token, no balance, no approval.
    pub open spec fn initial(
        name: Seq<char>,
        symbol: Seq<char>,
        minter: Option<AccountId>,
    ) -> LedgerState {
        LedgerState {
            name,
            symbol,
            minter,
            owners: Map::empty(),
            balances: Map::empty(),
            token_approvals: Map::empty(),
            operator_approvals: Map::empty(),
            token_uri: Map::empty(),
            total_supply: 0,
        }
    }

    /// The balance of `account`: what is recorded for it, or zero where
    /// nothing is.
    pub open spec fn balance_of(self, account: AccountId) -> nat {
        if self.balances.contains_key(account) {
            self.balances[account]
        } else {
            0
        }
    }

    /// The tokens that `account` owns.
    pub open spec fn owned_tokens(self, account: AccountId) -> Set<u32> {
        self.owners.dom().filter(|t: u32| self.owners[t] == account)
    }

    /// The owner of `token_id`, if the token exists.
    pub open spec fn owner_of(self, token_id: u32) -> Result<AccountId, Error> {
        if self.owners.contains_key(token_id) {
            Ok(self.owners[token_id])
        } else {
            Err(Error::NotFound)
        }
    }

    /// The metadata URI of `token_id`, if one is recorded.
    pub open spec fn uri_of(self, token_id: u32) -> Result<Seq<char>, Error> {
        if self.token_uri.contains_key(token_id) {
            Ok(self.token_uri[token_id])
        } else {
            Err(Error::NotFound)
        }
    }

    /// The approved spender recorded for `token_id`, if any.
    pub open spec fn approved(self, token_id: u32) -> Option<AccountId> {
        if self.token_approvals.contains_key(token_id) {
            Some(self.token_approvals[token_id])
        } else {
            None
        }
    }

    /// Whether `owner` currently lets `operator` act on all of its tokens.
    pub open spec fn approved_for_all(self, owner: AccountId, operator: AccountId) -> bool {
        self.operator_approvals.contains_key((owner, operator))
            && self.operator_approvals[(owner, operator)]
    }

    /// Whether a caller presenting `caller` may mint.
    pub open spec fn may_mint(self, caller: Option<AccountId>) -> bool {
        match self.minter {
            None => true,
            Some(m) => caller == Some(m),
        }
    }

    /// What holds of every ledger that operations have produced: balances
    /// count owned tokens, the supply counts existing tokens, exactly the
    /// existing tokens carry a URI, and only existing tokens have an approved
    /// spender.
    pub open spec fn consistent(self) -> bool {
        &&& self.owners.dom().finite()
        &&& self.total_supply == self.owners.dom().len()
        &&& self.token_uri.dom() == self.owners.dom()
        &&& self.token_approvals.dom().subset_of(self.owners.dom())
        &&& forall|a: AccountId| #[trigger] self.balance_of(a) == self.owned_tokens(a).len()
    }

    /// Whether a mint of `token_id` by `caller` goes through.
    pub open spec fn mint_outcome(
        self,
        caller: Option<AccountId>,
        token_id: u32,
    ) -> Result<(), Error> {
        if self.owners.contains_key(token_id) {
            Err(Error::AlreadyExists)
        } else if !self.may_mint(caller) {
            Err(Error::Unauthorized)
        } else {
            Ok(())
        }
    }

    /// The ledger after a mint that went through.
    pub open spec fn minted(self, to: AccountId, token_id: u32, uri: Seq<char>) -> LedgerState {
        LedgerState {
            owners: self.owners.insert(token_id, to),
            balances: self.balances.insert(to, self.balance_of(to) + 1),
            token_uri: self.token_uri.insert(token_id, uri),
            total_supply: self.total_supply + 1,
            ..self
        }
    }

    /// Whether a burn of `token_id` goes through.
    pub open spec fn burn_outcome(self, token_id: u32) -> Result<(), Error> {
        if self.owners.contains_key(token_id) {
            Ok(())
        } else {
            Err(Error::NotFound)
        }
    }

    /// The ledger after a burn that went through: the token's owner, URI and
    /// approved spender are gone, so that a later token of the same id starts
    /// without any of them.
    pub open spec fn burned(self, token_id: u32) -> LedgerState {
        let owner = self.owners[token_id];
        LedgerState {
            owners: self.owners.remove(token_id),
            balances: self.balances.insert(owner, (self.balance_of(owner) - 1) as nat),
            token_approvals: self.token_approvals.remove(token_id),
            token_uri: self.token_uri.remove(token_id),
            total_supply: (self.total_supply - 1) as nat,
            ..self
        }
    }

    /// Whether a transfer of `token_id` out of `from` goes through.
    pub open spec fn transfer_outcome(self, from: AccountId, token_id: u32) -> Result<(), Error> {
        if !self.owners.contains_key(token_id) {
            Err(Error::NotFound)
        } else if self.owners[token_id] != from {
            Err(Error::NotOwner)
        } else {
            Ok(())
        }
    }

    /// The ledger after a transfer that went through. A transfer to the
    /// owner itself changes nothing; the token's approval stays as recorded.
    pub open spec fn transferred(self, from: AccountId, to: AccountId, token_id: u32) -> LedgerState {
        if from == to {
            self
        } else {
            LedgerState {
                owners: self.owners.insert(token_id, to),
                balances: self.balances.insert(from, (self.balance_of(from) - 1) as nat).insert(
                    to,
                    self.balance_of(to) + 1,
                ),
                ..self
            }
        }
    }

    /// Whether an approval of `to` for `token_id` goes through.
    pub open spec fn approve_outcome(self, to: AccountId, token_id: u32) -> Result<(), Error> {
        if !self.owners.contains_key(token_id) {
            Err(Error::NotFound)
        } else if self.owners[token_id] == to {
            Err(Error::SelfApproval)
        } else {
            Ok(())
        }
    }

    /// The ledger after an approval that went through: `to` is the one
    /// approved spender of the token.
    pub open spec fn approval_set(self, to: AccountId, token_id: u32) -> LedgerState {
        LedgerState { token_approvals: self.token_approvals.insert(token_id, to), ..self }
    }

    /// The ledger after `owner` granted (`approved`) or revoked (`!approved`)
    /// `operator`'s blanket approval.
    pub open spec fn operator_set(
        self,
        owner: AccountId,
        operator: AccountId,
        approved: bool,
    ) -> LedgerState {
        LedgerState {
            operator_approvals: self.operator_approvals.insert((owner, operator), approved),
            ..self
        }
    }

    /// Whether `op` goes through on this ledger.
    pub open spec fn outcome(self, op: Operation) -> Result<(), Error> {
        match op {
            Operation::Mint { caller, to, token_id, uri } => self.mint_outcome(caller, token_id),
            Operation::Burn { token_id } => self.burn_outcome(token_id),
            Operation::Transfer { from, to, token_id } => self.transfer_outcome(from, token_id),
            Operation::Approve { to, token_id } => self.approve_outcome(to, token_id),
            Operation::SetApprovalForAll { owner, operator, approved } => Ok(()),
        }
    }

    /// The ledger after `op`: its effect where it goes through, the ledger
    /// as it was where it is refused.
    pub open spec fn apply(self, op: Operation) -> LedgerState {
        if self.outcome(op) is Err {
            self
        } else {
            match op {
                Operation::Mint { caller, to, token_id, uri } => self.minted(to, token_id, uri),
                Operation::Burn { token_id } => self.burned(token_id),
                Operation::Transfer { from, to, token_id } => self.transferred(from, to, token_id),
                Operation::Approve { to, token_id } => self.approval_set(to, token_id),
                Operation::SetApprovalForAll { owner, operator, approved } => self.operator_set(
                    owner,
                    operator,
                    approved,
                ),
            }
        }
    }

    /// The ledger after the operations of `ops`, first to last.
    pub open spec fn run(self, ops: Seq<Operation>) -> LedgerState
        decreases ops.len(),
    {
        if ops.len() == 0 {
            self
        } else {
            self.run(ops.drop_last()).apply(ops.last())
        }
    }
}

} // verus!
