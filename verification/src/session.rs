//! The identity that a session works with.

use vstd::prelude::*;
use crate::account::{Account, AccountView};

verus! {

/// What a session remembers: whether it was set up, and the account that is
/// selected.
#[derive(Debug)]
pub struct SessionState {
    pub initialised: bool,
    pub current_account: Option<Account>,
}

/// The account of an optional account, as plain values.
pub open spec fn selected(account: Option<Account>) -> Option<AccountView> {
    match account {
        Some(account) => Some(account@),
        None => None,
    }
}

/// Where the first account stands that is marked as the default one.
pub open spec fn first_default(accounts: Seq<Account>) -> Option<int>
    decreases accounts.len(),
{
    if accounts.len() == 0 {
        None
    } else if accounts.first().is_default {
        Some(0)
    } else {
        match first_default(accounts.drop_first()) {
            Some(at) => Some(at + 1),
            None => None,
        }
    }
}

/// The first default account is marked and none before it is; without a
/// marked account there is none.
pub proof fn lemma_first_default(accounts: Seq<Account>)
    ensures
        match first_default(accounts) {
            Some(at) => {
                &&& 0 <= at < accounts.len()
                &&& accounts[at].is_default
                &&& forall|i: int| 0 <= i < at ==> !(#[trigger] accounts[i]).is_default
            },
            None => forall|i: int| 0 <= i < accounts.len() ==> !(#[trigger] accounts[i]).is_default,
        },
    decreases accounts.len(),
{
    if accounts.len() > 0 && !accounts.first().is_default {
        let rest = accounts.drop_first();
        lemma_first_default(rest);
        match first_default(rest) {
            Some(at) => {
                assert(accounts[at + 1] == rest[at]);
                assert forall|i: int| 0 <= i < at + 1 implies !(#[trigger] accounts[i]).is_default by {
                    if i > 0 {
                        assert(accounts[i] == rest[i - 1]);
                    }
                }
            },
            None => {
                assert forall|i: int| 0 <= i < accounts.len() implies !(
                #[trigger] accounts[i]).is_default by {
                    if i > 0 {
                        assert(accounts[i] == rest[i - 1]);
                    }
                }
            },
        }
    }
}

/// What a session selects when it is set up with `accounts`: the first that
/// is marked as the default one, else what it had selected.
pub open spec fn selection(before: Option<Account>, accounts: Seq<Account>) -> Option<AccountView> {
    match first_default(accounts) {
        Some(at) => Some(accounts[at]@),
        None => selected(before),
    }
}

impl SessionState {
    /// A session that has not been set up and has selected no account.
    pub fn new() -> (state: SessionState)
        ensures
            !state.initialised,
            state.current_account is None,
    {
        SessionState { initialised: false, current_account: None }
    }
}

/// Sets the session up, once: the first of `accounts` that is marked as the
/// default one becomes the selected account. A session that was set up before
/// stays as it is.
pub fn init_state(state: &mut SessionState, accounts: &Vec<Account>)
    ensures
        final(state).initialised,
        old(state).initialised ==> *final(state) == *old(state),
        !old(state).initialised ==> selected(final(state).current_account) == selection(
            old(state).current_account,
            accounts@,
        ),
{
    if state.initialised {
        return ;
    }
    state.initialised = true;
    let mut index: usize = 0;
    assert(accounts@.skip(0) =~= accounts@);
    while index < accounts.len()
        invariant
            index <= accounts.len(),
            !old(state).initialised,
            state.initialised,
            state.current_account == old(state).current_account,
            first_default(accounts@) == match first_default(accounts@.skip(index as int)) {
                Some(at) => Some(at + index),
                None => None::<int>,
            },
        decreases accounts.len() - index,
    {
        proof {
            let rest = accounts@.skip(index as int);
            assert(rest.first() == accounts@[index as int]);
            assert(rest.drop_first() =~= accounts@.skip(index + 1));
        }
        if accounts[index].is_default {
            state.current_account = Some(accounts[index].clone());
            return ;
        }
        index = index + 1;
    }
}

} // verus!
