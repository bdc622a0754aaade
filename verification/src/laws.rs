//! What holds of the ledger whatever is done to it, proved over the model.

use vstd::prelude::*;
use crate::account::AccountId;
use crate::model::{Error, LedgerState, Operation};

verus! {

/// The tokens of one account are among the existing tokens: they are
/// finitely many, and no more than the supply.
pub proof fn lemma_owned_tokens_bounded(s: LedgerState, account: AccountId)
    requires
        s.owners.dom().finite(),
    ensures
        s.owned_tokens(account).finite(),
        s.owned_tokens(account).len() <= s.owners.dom().len(),
{
    vstd::set_lib::lemma_len_subset(s.owned_tokens(account), s.owners.dom());
}

/// In a consistent ledger the owner of an existing token has a balance of at
/// least one, and the supply is at least one.
pub proof fn lemma_owner_has_balance(s: LedgerState, token_id: u32)
    requires
        s.consistent(),
        s.owners.contains_key(token_id),
    ensures
        s.balance_of(s.owners[token_id]) >= 1,
        s.total_supply >= 1,
        s.balance_of(s.owners[token_id]) <= s.total_supply,
{
    let owner = s.owners[token_id];
    lemma_owned_tokens_bounded(s, owner);
    assert(s.owned_tokens(owner).contains(token_id));
    assert(s.balance_of(owner) == s.owned_tokens(owner).len());
}

/// In a consistent ledger an account that does not own a given existing
/// token has a balance below the supply.
pub proof fn lemma_balance_below_supply(s: LedgerState, token_id: u32, account: AccountId)
    requires
        s.consistent(),
        s.owners.contains_key(token_id),
        s.owners[token_id] != account,
    ensures
        s.balance_of(account) < s.total_supply,
{
    vstd::set_lib::lemma_len_subset(s.owned_tokens(account), s.owners.dom().remove(token_id));
    assert(s.balance_of(account) == s.owned_tokens(account).len());
}

/// No balance exceeds the supply.
pub proof fn lemma_balance_within_supply(s: LedgerState, account: AccountId)
    requires
        s.consistent(),
    ensures
        s.balance_of(account) <= s.total_supply,
{
    lemma_owned_tokens_bounded(s, account);
    assert(s.balance_of(account) == s.owned_tokens(account).len());
}

/// A new ledger is consistent.
pub proof fn lemma_initial_consistent(
    name: Seq<char>,
    symbol: Seq<char>,
    minter: Option<AccountId>,
)
    ensures
        LedgerState::initial(name, symbol, minter).consistent(),
{
    let s = LedgerState::initial(name, symbol, minter);
    assert(s.token_uri.dom() =~= s.owners.dom());
    assert forall|a: AccountId| #[trigger] s.balance_of(a) == s.owned_tokens(a).len() by {
        assert(s.owned_tokens(a) =~= Set::<u32>::empty());
    }
}

/// A mint that goes through keeps the ledger consistent.
pub proof fn lemma_mint_consistent(s: LedgerState, to: AccountId, token_id: u32, uri: Seq<char>)
    requires
        s.consistent(),
        !s.owners.contains_key(token_id),
    ensures
        s.minted(to, token_id, uri).consistent(),
{
    let n = s.minted(to, token_id, uri);
    assert(n.owners.dom() =~= s.owners.dom().insert(token_id));
    assert(n.token_uri.dom() =~= n.owners.dom());
    assert forall|a: AccountId| #[trigger] n.balance_of(a) == n.owned_tokens(a).len() by {
        lemma_owned_tokens_bounded(s, a);
        assert(s.balance_of(a) == s.owned_tokens(a).len());
        if a == to {
            assert(n.owned_tokens(a) =~= s.owned_tokens(a).insert(token_id));
        } else {
            assert(n.owned_tokens(a) =~= s.owned_tokens(a));
        }
    }
}

/// A burn that goes through keeps the ledger consistent.
pub proof fn lemma_burn_consistent(s: LedgerState, token_id: u32)
    requires
        s.consistent(),
        s.owners.contains_key(token_id),
    ensures
        s.burned(token_id).consistent(),
{
    let n = s.burned(token_id);
    let owner = s.owners[token_id];
    lemma_owner_has_balance(s, token_id);
    assert(n.owners.dom() =~= s.owners.dom().remove(token_id));
    assert(n.token_uri.dom() =~= n.owners.dom());
    assert forall|a: AccountId| #[trigger] n.balance_of(a) == n.owned_tokens(a).len() by {
        lemma_owned_tokens_bounded(s, a);
        assert(s.balance_of(a) == s.owned_tokens(a).len());
        if a == owner {
            assert(n.owned_tokens(a) =~= s.owned_tokens(a).remove(token_id));
        } else {
            assert(n.owned_tokens(a) =~= s.owned_tokens(a));
        }
    }
}

/// A transfer that goes through keeps the ledger consistent.
pub proof fn lemma_transfer_consistent(s: LedgerState, from: AccountId, to: AccountId, token_id: u32)
    requires
        s.consistent(),
        s.owners.contains_key(token_id),
        s.owners[token_id] == from,
    ensures
        s.transferred(from, to, token_id).consistent(),
{
    if from != to {
        let n = s.transferred(from, to, token_id);
        lemma_owner_has_balance(s, token_id);
        assert(n.owners.dom() =~= s.owners.dom());
        assert forall|a: AccountId| #[trigger] n.balance_of(a) == n.owned_tokens(a).len() by {
            lemma_owned_tokens_bounded(s, a);
            assert(s.balance_of(a) == s.owned_tokens(a).len());
            if a == from {
                assert(n.owned_tokens(a) =~= s.owned_tokens(a).remove(token_id));
            } else if a == to {
                assert(n.owned_tokens(a) =~= s.owned_tokens(a).insert(token_id));
            } else {
                assert(n.owned_tokens(a) =~= s.owned_tokens(a));
            }
        }
    }
}

/// Whatever the operation, and whether it goes through or is refused, a
/// consistent ledger stays consistent.
pub proof fn lemma_apply_consistent(s: LedgerState, op: Operation)
    requires
        s.consistent(),
    ensures
        s.apply(op).consistent(),
{
    if s.outcome(op) is Ok {
        match op {
            Operation::Mint { caller, to, token_id, uri } => {
                lemma_mint_consistent(s, to, token_id, uri);
            },
            Operation::Burn { token_id } => {
                lemma_burn_consistent(s, token_id);
            },
            Operation::Transfer { from, to, token_id } => {
                lemma_transfer_consistent(s, from, to, token_id);
            },
            Operation::Approve { to, token_id } => {
                let n = s.approval_set(to, token_id);
                assert forall|a: AccountId| #[trigger]
                    n.balance_of(a) == n.owned_tokens(a).len() by {
                    assert(s.balance_of(a) == s.owned_tokens(a).len());
                    assert(n.owned_tokens(a) =~= s.owned_tokens(a));
                }
            },
            Operation::SetApprovalForAll { owner, operator, approved } => {
                let n = s.operator_set(owner, operator, approved);
                assert forall|a: AccountId| #[trigger]
                    n.balance_of(a) == n.owned_tokens(a).len() by {
                    assert(s.balance_of(a) == s.owned_tokens(a).len());
                    assert(n.owned_tokens(a) =~= s.owned_tokens(a));
                }
            },
        }
    }
}

/// After any sequence of operations on a consistent ledger, the ledger is
/// consistent.
pub proof fn lemma_run_consistent(s: LedgerState, ops: Seq<Operation>)
    requires
        s.consistent(),
    ensures
        s.run(ops).consistent(),
    decreases ops.len(),
{
    if ops.len() > 0 {
        lemma_run_consistent(s, ops.drop_last());
        lemma_apply_consistent(s.run(ops.drop_last()), ops.last());
    }
}

/// After any sequence of operations on a new ledger, the balance of every
/// account is the number of tokens it owns, and the supply is the number of
/// tokens that exist.
pub proof fn lemma_balances_count_owned_tokens(
    name: Seq<char>,
    symbol: Seq<char>,
    minter: Option<AccountId>,
    ops: Seq<Operation>,
    account: AccountId,
)
    ensures
        ({
            let s = LedgerState::initial(name, symbol, minter).run(ops);
            &&& s.balance_of(account) == s.owned_tokens(account).len()
            &&& s.total_supply == s.owners.dom().len()
        }),
{
    lemma_initial_consistent(name, symbol, minter);
    lemma_run_consistent(LedgerState::initial(name, symbol, minter), ops);
}

/// In a consistent ledger a token that does not exist has no approved
/// spender.
pub proof fn lemma_missing_token_has_no_spender(s: LedgerState, token_id: u32)
    requires
        s.consistent(),
        !s.owners.contains_key(token_id),
    ensures
        s.approved(token_id) == None::<AccountId>,
{
    assert(!s.token_approvals.dom().contains(token_id));
}

/// A mint of a token that does not exist, by a caller who may mint, goes
/// through; afterwards the receiver owns the token, which carries the given
/// URI and has no approved spender, the receiver owns exactly that one token
/// more and its balance is larger by one, every other account owns what it
/// owned and has the balance it had, and the supply is larger by one.
pub proof fn lemma_mint_adds_one_token(
    s: LedgerState,
    caller: Option<AccountId>,
    to: AccountId,
    token_id: u32,
    uri: Seq<char>,
)
    requires
        s.consistent(),
        !s.owners.contains_key(token_id),
        s.may_mint(caller),
    ensures
        s.outcome(Operation::Mint { caller, to, token_id, uri }) == Ok::<(), Error>(()),
        s.apply(Operation::Mint { caller, to, token_id, uri }).consistent(),
        s.apply(Operation::Mint { caller, to, token_id, uri }).owner_of(token_id) == Ok::<
            AccountId,
            Error,
        >(to),
        s.apply(Operation::Mint { caller, to, token_id, uri }).uri_of(token_id) == Ok::<
            Seq<char>,
            Error,
        >(uri),
        s.apply(Operation::Mint { caller, to, token_id, uri }).approved(token_id) == None::<
            AccountId,
        >,
        s.apply(Operation::Mint { caller, to, token_id, uri }).owned_tokens(to) == s.owned_tokens(
            to,
        ).insert(token_id),
        s.apply(Operation::Mint { caller, to, token_id, uri }).balance_of(to) == s.balance_of(to)
            + 1,
        forall|a: AccountId|
            a != to ==> #[trigger] s.apply(
                Operation::Mint { caller, to, token_id, uri },
            ).owned_tokens(a) == s.owned_tokens(a),
        forall|a: AccountId|
            a != to ==> #[trigger] s.apply(Operation::Mint { caller, to, token_id, uri }).balance_of(
                a,
            ) == s.balance_of(a),
        s.apply(Operation::Mint { caller, to, token_id, uri }).total_supply == s.total_supply + 1,
{
    let n = s.minted(to, token_id, uri);
    lemma_mint_consistent(s, to, token_id, uri);
    lemma_missing_token_has_no_spender(s, token_id);
    assert(n.owned_tokens(to) =~= s.owned_tokens(to).insert(token_id));
    assert forall|a: AccountId| a != to implies #[trigger] n.owned_tokens(a) == s.owned_tokens(
        a,
    ) by {
        assert(n.owned_tokens(a) =~= s.owned_tokens(a));
    }
}

/// A mint of a token that exists is refused as `AlreadyExists`, whoever
/// calls, and changes nothing.
pub proof fn lemma_mint_existing_refused(
    s: LedgerState,
    caller: Option<AccountId>,
    to: AccountId,
    token_id: u32,
    uri: Seq<char>,
)
    requires
        s.owners.contains_key(token_id),
    ensures
        s.outcome(Operation::Mint { caller, to, token_id, uri }) == Err::<(), Error>(
            Error::AlreadyExists,
        ),
        s.apply(Operation::Mint { caller, to, token_id, uri }) == s,
{
}

/// A burn of a token that does not exist is refused as `NotFound` and
/// changes nothing.
pub proof fn lemma_burn_missing_refused(s: LedgerState, token_id: u32)
    requires
        !s.owners.contains_key(token_id),
    ensures
        s.outcome(Operation::Burn { token_id }) == Err::<(), Error>(Error::NotFound),
        s.apply(Operation::Burn { token_id }) == s,
{
}

/// A burn of an existing token goes through; afterwards the token has no
/// owner, no URI and no approved spender, and the supply is smaller by
/// exactly one.
pub proof fn lemma_burn_removes_token(s: LedgerState, token_id: u32)
    requires
        s.consistent(),
        s.owners.contains_key(token_id),
    ensures
        s.outcome(Operation::Burn { token_id }) == Ok::<(), Error>(()),
        s.apply(Operation::Burn { token_id }).owner_of(token_id) == Err::<AccountId, Error>(
            Error::NotFound,
        ),
        s.apply(Operation::Burn { token_id }).uri_of(token_id) == Err::<Seq<char>, Error>(
            Error::NotFound,
        ),
        s.apply(Operation::Burn { token_id }).approved(token_id) == None::<AccountId>,
        s.apply(Operation::Burn { token_id }).total_supply + 1 == s.total_supply,
        s.apply(Operation::Burn { token_id }).balance_of(s.owners[token_id]) + 1 == s.balance_of(
            s.owners[token_id],
        ),
{
    lemma_owner_has_balance(s, token_id);
}

/// A transfer of a token that does not exist is refused as `NotFound`; one
/// of an existing token by an account that does not own it as `NotOwner`.
/// Either way nothing changes.
pub proof fn lemma_transfer_refused(s: LedgerState, from: AccountId, to: AccountId, token_id: u32)
    ensures
        !s.owners.contains_key(token_id) ==> s.outcome(Operation::Transfer { from, to, token_id })
            == Err::<(), Error>(Error::NotFound),
        s.owners.contains_key(token_id) && s.owners[token_id] != from ==> s.outcome(
            Operation::Transfer { from, to, token_id },
        ) == Err::<(), Error>(Error::NotOwner),
        s.outcome(Operation::Transfer { from, to, token_id }) is Err ==> s.apply(
            Operation::Transfer { from, to, token_id },
        ) == s,
{
}

/// A transfer by the owner to another account goes through; afterwards the
/// receiver owns the token, the sender's balance is smaller by one, the
/// receiver's is larger by one, and every other balance is as it was.
pub proof fn lemma_transfer_moves_token(
    s: LedgerState,
    from: AccountId,
    to: AccountId,
    token_id: u32,
)
    requires
        s.consistent(),
        s.owners.contains_key(token_id),
        s.owners[token_id] == from,
        from != to,
    ensures
        s.outcome(Operation::Transfer { from, to, token_id }) == Ok::<(), Error>(()),
        s.apply(Operation::Transfer { from, to, token_id }).owner_of(token_id) == Ok::<
            AccountId,
            Error,
        >(to),
        s.apply(Operation::Transfer { from, to, token_id }).balance_of(from) + 1 == s.balance_of(
            from,
        ),
        s.apply(Operation::Transfer { from, to, token_id }).balance_of(to) == s.balance_of(to) + 1,
        forall|a: AccountId|
            a != from && a != to ==> #[trigger] s.apply(
                Operation::Transfer { from, to, token_id },
            ).balance_of(a) == s.balance_of(a),
        s.apply(Operation::Transfer { from, to, token_id }).total_supply == s.total_supply,
{
    lemma_owner_has_balance(s, token_id);
}

/// A transfer by the owner to itself goes through and changes nothing: the
/// owner keeps the token and every balance is as it was.
pub proof fn lemma_self_transfer_changes_nothing(s: LedgerState, owner: AccountId, token_id: u32)
    requires
        s.owners.contains_key(token_id),
        s.owners[token_id] == owner,
    ensures
        s.outcome(Operation::Transfer { from: owner, to: owner, token_id }) == Ok::<(), Error>(()),
        s.apply(Operation::Transfer { from: owner, to: owner, token_id }) == s,
        s.apply(Operation::Transfer { from: owner, to: owner, token_id }).balance_of(owner)
            == s.balance_of(owner),
{
}

/// An approval of the token's owner is refused as `SelfApproval` and
/// changes nothing.
pub proof fn lemma_approve_owner_refused(s: LedgerState, token_id: u32)
    requires
        s.owners.contains_key(token_id),
    ensures
        s.outcome(Operation::Approve { to: s.owners[token_id], token_id }) == Err::<(), Error>(
            Error::SelfApproval,
        ),
        s.apply(Operation::Approve { to: s.owners[token_id], token_id }) == s,
{
}

/// An operation that is refused leaves the ledger exactly as it was.
pub proof fn lemma_refused_changes_nothing(s: LedgerState, op: Operation)
    requires
        s.outcome(op) is Err,
    ensures
        s.apply(op) == s,
{
}

} // verus!
