//! A custody vault: users deposit whitelisted tokens, and withdraw them
//! themselves or through a delegated agent that may later return funds.
use crate::pool::{balance_key, balance_key_spec, lemma_balance_key_injective, AccountId, AssetId};
use std::collections::HashMap;
use vstd::prelude::*;

verus! {

broadcast use vstd::std_specs::hash::group_hash_axioms;

#[derive(Clone, Copy, Debug, PartialEq, Eq, Structural)]
pub enum Error {
    NotInitialized,
    AlreadyInitialized,
    UnsupportedToken,
    InsufficientBalance,
    AgentSessionInvalid,
    InvalidAmount,
    ArithmeticOverflow,
}

/// The abstract state of a vault.
pub ghost struct VaultModel {
    pub supported: Map<AssetId, bool>,
    pub balances: Map<u128, i128>,
}

impl VaultModel {
    pub open spec fn is_supported(self, token: AssetId) -> bool {
        self.supported.contains_key(token) && self.supported[token]
    }

    /// Balance of `user` in `token`.
    pub open spec fn balance(self, user: AccountId, token: AssetId) -> int {
        let k = balance_key_spec(user, token);
        if self.balances.contains_key(k) {
            self.balances[k] as int
        } else {
            0
        }
    }

    pub open spec fn wf(self) -> bool {
        forall|k: u128| #[trigger] self.balances.contains_key(k) ==> self.balances[k] >= 0
    }

    /// The vault with `user`'s balance of `token` set to `value`.
    pub open spec fn with_balance(self, user: AccountId, token: AssetId, value: int) -> VaultModel {
        VaultModel { balances: self.balances.insert(balance_key_spec(user, token), value as i128), ..self }
    }

    /// Why a credit of `amount` fails, if it does.
    pub open spec fn credit_error(self, user: AccountId, token: AssetId, amount: i128) -> Option<Error> {
        if amount < 0 {
            Some(Error::InvalidAmount)
        } else if self.balance(user, token) + amount > i128::MAX {
            Some(Error::ArithmeticOverflow)
        } else {
            None
        }
    }

    /// Why a debit of `amount` fails, if it does.
    pub open spec fn debit_error(self, user: AccountId, token: AssetId, amount: i128) -> Option<Error> {
        if amount < 0 {
            Some(Error::InvalidAmount)
        } else if self.balance(user, token) < amount {
            Some(Error::InsufficientBalance)
        } else {
            None
        }
    }

    /// Why `deposit` fails, if it does.
    pub open spec fn deposit_error(self, user: AccountId, token: AssetId, amount: i128) -> Option<Error> {
        if amount < 0 {
            Some(Error::InvalidAmount)
        } else if !self.is_supported(token) {
            Some(Error::UnsupportedToken)
        } else {
            self.credit_error(user, token, amount)
        }
    }
}

pub struct AgentVault {
    pub supported_tokens: HashMap<AssetId, bool>,
    pub balances: HashMap<u128, i128>,
}

impl View for AgentVault {
    type V = VaultModel;

    open spec fn view(&self) -> VaultModel {
        VaultModel { supported: self.supported_tokens@, balances: self.balances@ }
    }
}

impl AgentVault {
    /// An empty vault with no supported token.
    pub fn initialize() -> (v: AgentVault)
        ensures
            v@.wf(),
            v@.supported.is_empty(),
            v@.balances.is_empty(),
    {
        AgentVault { supported_tokens: HashMap::new(), balances: HashMap::new() }
    }

    /// Whitelists `token` for deposits.
    pub fn add_supported_token(&mut self, token: AssetId)
        requires
            old(self)@.wf(),
        ensures
            final(self)@ == (VaultModel {
                supported: old(self)@.supported.insert(token, true),
                ..old(self)@
            }),
            final(self)@.wf(),
    {
        let ghost pre = self@;
        self.supported_tokens.insert(token, true);
        assert(self@.balances == pre.balances);
    }

    /// Removes `token` from the whitelist; existing balances can still be
    /// withdrawn.
    pub fn remove_supported_token(&mut self, token: AssetId)
        requires
            old(self)@.wf(),
        ensures
            final(self)@ == (VaultModel {
                supported: old(self)@.supported.insert(token, false),
                ..old(self)@
            }),
            final(self)@.wf(),
    {
        let ghost pre = self@;
        self.supported_tokens.insert(token, false);
        assert(self@.balances == pre.balances);
    }

    /// Balance of `user` in `token`.
    pub fn get_balance(&self, user: AccountId, token: AssetId) -> (r: i128)
        requires
            self@.wf(),
        ensures
            r == self@.balance(user, token),
            r >= 0,
    {
        match self.balances.get(&balance_key(user, token)) {
            Some(b) => {
                assert(self@.balances.contains_key(balance_key_spec(user, token)));
                *b
            },
            None => 0,
        }
    }

    /// Balances of `user` in each of `tokens`, in order.
    pub fn get_all_balances(&self, user: AccountId, tokens: &Vec<AssetId>) -> (r: Vec<(AssetId, i128)>)
        requires
            self@.wf(),
        ensures
            r@.len() == tokens@.len(),
            forall|i: int| 0 <= i < tokens@.len() ==> #[trigger] r@[i] == (
                tokens@[i],
                self@.balance(user, tokens@[i]) as i128,
            ),
    {
        let mut out: Vec<(AssetId, i128)> = Vec::new();
        let mut i: usize = 0;
        while i < tokens.len()
            invariant
                self@.wf(),
                i <= tokens@.len(),
                out@.len() == i,
                forall|j: int| 0 <= j < i ==> #[trigger] out@[j] == (
                    tokens@[j],
                    self@.balance(user, tokens@[j]) as i128,
                ),
            decreases tokens@.len() - i,
        {
            let token = tokens[i];
            out.push((token, self.get_balance(user, token)));
            i = i + 1;
        }
        out
    }

    fn set_balance(&mut self, user: AccountId, token: AssetId, value: i128)
        requires
            old(self)@.wf(),
            value >= 0,
        ensures
            final(self)@ == old(self)@.with_balance(user, token, value as int),
            final(self)@.wf(),
            forall|u: AccountId, a: AssetId| #[trigger] final(self)@.balance(u, a) == if u == user && a
                == token {
                value as int
            } else {
                old(self)@.balance(u, a)
            },
    {
        self.balances.insert(balance_key(user, token), value);
        proof {
            assert forall|u: AccountId, a: AssetId| #[trigger] self@.balance(u, a) == if u == user && a
                == token {
                value as int
            } else {
                old(self)@.balance(u, a)
            } by {
                if balance_key_spec(u, a) == balance_key_spec(user, token) {
                    lemma_balance_key_injective(u, a, user, token);
                }
            }
        }
    }

    fn credit(&mut self, user: AccountId, token: AssetId, amount: i128) -> (r: Result<i128, Error>)
        requires
            old(self)@.wf(),
        ensures
            r is Err <==> old(self)@.credit_error(user, token, amount) is Some,
            r matches Err(e) ==> old(self)@.credit_error(user, token, amount) == Some(e) && final(self)@
                == old(self)@,
            r matches Ok(b) ==> b == old(self)@.balance(user, token) + amount && final(self)@ == old(
                self,
            )@.with_balance(user, token, b as int),
            final(self)@.wf(),
    {
        if amount < 0 {
            return Err(Error::InvalidAmount);
        }
        let balance = self.get_balance(user, token);
        if balance > i128::MAX - amount {
            return Err(Error::ArithmeticOverflow);
        }
        self.set_balance(user, token, balance + amount);
        Ok(balance + amount)
    }

    fn debit(&mut self, user: AccountId, token: AssetId, amount: i128) -> (r: Result<i128, Error>)
        requires
            old(self)@.wf(),
        ensures
            r is Err <==> old(self)@.debit_error(user, token, amount) is Some,
            r matches Err(e) ==> old(self)@.debit_error(user, token, amount) == Some(e) && final(self)@
                == old(self)@,
            r matches Ok(b) ==> b == old(self)@.balance(user, token) - amount && final(self)@ == old(
                self,
            )@.with_balance(user, token, b as int),
            final(self)@.wf(),
    {
        if amount < 0 {
            return Err(Error::InvalidAmount);
        }
        let balance = self.get_balance(user, token);
        if balance < amount {
            return Err(Error::InsufficientBalance);
        }
        self.set_balance(user, token, balance - amount);
        Ok(balance - amount)
    }

    /// Credits a deposit of a supported token; returns the new balance.
    pub fn deposit(&mut self, user: AccountId, token: AssetId, amount: i128) -> (r: Result<i128, Error>)
        requires
            old(self)@.wf(),
        ensures
            r is Err <==> old(self)@.deposit_error(user, token, amount) is Some,
            r matches Err(e) ==> old(self)@.deposit_error(user, token, amount) == Some(e) && final(self)@
                == old(self)@,
            r matches Ok(b) ==> b == old(self)@.balance(user, token) + amount && final(self)@ == old(
                self,
            )@.with_balance(user, token, b as int),
            final(self)@.wf(),
    {
        if amount < 0 {
            return Err(Error::InvalidAmount);
        }
        let supported = match self.supported_tokens.get(&token) {
            Some(flag) => *flag,
            None => false,
        };
        if !supported {
            return Err(Error::UnsupportedToken);
        }
        self.credit(user, token, amount)
    }

    /// Debits a withdrawal by the user; returns the new balance.
    pub fn withdraw(&mut self, user: AccountId, token: AssetId, amount: i128) -> (r: Result<i128, Error>)
        requires
            old(self)@.wf(),
        ensures
            r is Err <==> old(self)@.debit_error(user, token, amount) is Some,
            r matches Err(e) ==> old(self)@.debit_error(user, token, amount) == Some(e) && final(self)@
                == old(self)@,
            r matches Ok(b) ==> b == old(self)@.balance(user, token) - amount && final(self)@ == old(
                self,
            )@.with_balance(user, token, b as int),
            final(self)@.wf(),
    {
        self.debit(user, token, amount)
    }

    /// Debits funds that an authorized agent moves to another destination;
    /// returns the new balance.
    pub fn agent_withdraw(&mut self, user: AccountId, token: AssetId, amount: i128) -> (r: Result<i128, Error>)
        requires
            old(self)@.wf(),
        ensures
            r is Err <==> old(self)@.debit_error(user, token, amount) is Some,
            r matches Err(e) ==> old(self)@.debit_error(user, token, amount) == Some(e) && final(self)@
                == old(self)@,
            r matches Ok(b) ==> b == old(self)@.balance(user, token) - amount && final(self)@ == old(
                self,
            )@.with_balance(user, token, b as int),
            final(self)@.wf(),
    {
        self.debit(user, token, amount)
    }

    /// Credits funds an authorized agent returned after a trade settled;
    /// returns the new balance.
    pub fn agent_return_funds(&mut self, user: AccountId, token: AssetId, amount: i128) -> (r: Result<
        i128,
        Error,
    >)
        requires
            old(self)@.wf(),
        ensures
            r is Err <==> old(self)@.credit_error(user, token, amount) is Some,
            r matches Err(e) ==> old(self)@.credit_error(user, token, amount) == Some(e) && final(self)@
                == old(self)@,
            r matches Ok(b) ==> b == old(self)@.balance(user, token) + amount && final(self)@ == old(
                self,
            )@.with_balance(user, token, b as int),
            final(self)@.wf(),
    {
        self.credit(user, token, amount)
    }
}

} // verus!
