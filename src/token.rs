//! The token ledger: account balances, transfers, minting and a daily bonus.
use vstd::prelude::*;

use std::collections::HashMap;

use crate::abi::{AccountOwner, Amount, ContractAbi};

verus! {

broadcast use vstd::std_specs::hash::group_hash_axioms;

/// The balance a map of accounts gives `owner`: an absent account holds nothing.
pub open spec fn balance_in(accounts: Map<AccountOwner, Amount>, owner: AccountOwner) -> Amount {
    if accounts.contains_key(owner) {
        accounts[owner]
    } else {
        0
    }
}

/// A day, in microseconds.
pub const ONE_DAY_MICROS: u64 = 86_400_000_000;

/// Why a ledger command was refused. A refused command changes nothing.
#[derive(Debug, Clone, Copy, PartialEq, Eq, Structural)]
pub enum TokenError {
    /// The signer does not own the account.
    Unauthorized,
    /// The account cannot pay.
    InsufficientFunds,
    /// Tokens can be minted on the master chain only.
    NotMasterChain,
    /// The daily bonus is not available yet.
    BonusNotAvailable,
    /// A balance or the supply would exceed the largest amount.
    Overflow,
}

/// A command to the ledger.
#[derive(Debug, Clone, Copy, PartialEq, Eq, Structural)]
pub enum TokenOperation {
    /// Read an account's balance.
    Balance { owner: AccountOwner },
    /// Overwrite an account's balance.
    UpdateBalance { owner: AccountOwner, amount: Amount },
    /// Move tokens between accounts.
    Transfer { from: AccountOwner, to: AccountOwner, amount: Amount },
    /// Create new tokens (master chain only).
    Mint { to: AccountOwner, amount: Amount },
    /// Take the daily bonus.
    ClaimBonus { owner: AccountOwner },
}

/// A notification to the ledger from another chain.
#[derive(Debug, Clone, Copy, PartialEq, Eq, Structural)]
pub enum TokenMessage {
    /// An account's balance was set elsewhere.
    BalanceUpdated { owner: AccountOwner, new_balance: Amount },
    /// Tokens were minted elsewhere.
    TokensMinted { to: AccountOwner, amount: Amount },
}

/// What a successful ledger command returns.
#[derive(Debug, Clone, Copy, PartialEq, Eq, Structural)]
pub enum TokenResponse {
    /// The command was carried out.
    Done,
    /// A balance.
    Balance(Amount),
}

/// The command interface of the ledger.
pub struct TokenAbi;

impl ContractAbi for TokenAbi {
    type Operation = TokenOperation;
    type Response = TokenResponse;
}

/// The unit result a command's response stands for.
pub open spec fn unit_result(r: Result<TokenResponse, TokenError>) -> Result<(), TokenError> {
    match r {
        Ok(_) => Ok(()),
        Err(e) => Err(e),
    }
}

impl DailyBonus {
    /// A day has passed since the last claim, or there was none.
    pub open spec fn spec_can_claim(&self, current_time_micros: u64) -> bool {
        self.last_claim == 0 || current_time_micros - self.last_claim >= ONE_DAY_MICROS
    }

    /// Whether the bonus can be taken at `current_time_micros`.
    pub fn can_claim(&self, current_time_micros: u64) -> (r: bool)
        ensures
            r == self.spec_can_claim(current_time_micros),
    {
        if self.last_claim == 0 {
            return true;
        }
        current_time_micros.saturating_sub(self.last_claim) >= ONE_DAY_MICROS
    }

    /// Takes the bonus if it can be taken: records the time and returns the
    /// amount; otherwise returns zero and changes nothing.
    pub fn claim(&mut self, current_time_micros: u64) -> (r: Amount)
        ensures
            old(self).spec_can_claim(current_time_micros) ==> {
                &&& r == old(self).amount
                &&& *final(self) == (DailyBonus { last_claim: current_time_micros, ..*old(self) })
            },
            !old(self).spec_can_claim(current_time_micros) ==> {
                &&& r == 0
                &&& *final(self) == *old(self)
            },
    {
        if self.can_claim(current_time_micros) {
            self.last_claim = current_time_micros;
            self.amount
        } else {
            0
        }
    }
}

/// The token ledger.
pub struct TokenState {
    /// Balance of each account that has one.
    pub accounts: HashMap<AccountOwner, Amount>,
    /// Daily bonus record of each account that has claimed.
    pub daily_bonuses: HashMap<AccountOwner, DailyBonus>,
    /// Total supply.
    pub total_supply: Amount,
    /// The chain on which minting is allowed.
    pub master_chain: u64,
    /// The bonus an account receives once a day.
    pub daily_bonus: Amount,
}

/// When an account last took its daily bonus, and how much the bonus is.
#[derive(Debug, Clone, Copy, PartialEq, Eq, Structural)]
pub struct DailyBonus {
    /// The bonus paid per claim.
    pub amount: Amount,
    /// Time of the last claim, in microseconds; zero when never claimed.
    pub last_claim: u64,
}

impl TokenState {
    /// The balance of `owner`.
    pub open spec fn balance_of(&self, owner: AccountOwner) -> Amount {
        balance_in(self.accounts@, owner)
    }

    /// `other` differs from `self` at most in its balances.
    pub open spec fn same_but_balances(&self, other: &TokenState) -> bool {
        &&& other.daily_bonuses@ == self.daily_bonuses@
        &&& other.total_supply == self.total_supply
        &&& other.master_chain == self.master_chain
        &&& other.daily_bonus == self.daily_bonus
    }

    /// An empty ledger with the given parameters.
    pub fn new(initial_supply: Amount, master_chain: u64, daily_bonus: Amount) -> (r: Self)
        ensures
            r.accounts@ == Map::<AccountOwner, Amount>::empty(),
            r.daily_bonuses@ == Map::<AccountOwner, DailyBonus>::empty(),
            r.total_supply == initial_supply,
            r.master_chain == master_chain,
            r.daily_bonus == daily_bonus,
    {
        TokenState {
            accounts: HashMap::new(),
            daily_bonuses: HashMap::new(),
            total_supply: initial_supply,
            master_chain,
            daily_bonus,
        }
    }

    /// The balance of `owner`; zero for an account never seen.
    pub fn balance(&self, owner: AccountOwner) -> (r: Amount)
        ensures
            r == self.balance_of(owner),
    {
        match self.accounts.get(&owner) {
            Some(v) => *v,
            None => 0,
        }
    }

    /// Overwrites the balance of `owner`.
    pub fn update_balance(&mut self, owner: AccountOwner, amount: Amount)
        ensures
            final(self).accounts@ == old(self).accounts@.insert(owner, amount),
            old(self).same_but_balances(final(self)),
    {
        self.accounts.insert(owner, amount);
    }

    /// What a transfer of `amount` from `from` to `to`, asked for by
    /// `signer`, does to `before`: `self` and `r` are its result.
    pub open spec fn transferred(
        &self,
        before: TokenState,
        signer: AccountOwner,
        from: AccountOwner,
        to: AccountOwner,
        amount: Amount,
        r: Result<(), TokenError>,
    ) -> bool {
        let debited = before.accounts@.insert(
            from,
            (before.balance_of(from) - amount) as Amount,
        );
        if signer != from {
            r == Err::<(), TokenError>(TokenError::Unauthorized) && *self == before
        } else if before.balance_of(from) < amount {
            r == Err::<(), TokenError>(TokenError::InsufficientFunds) && *self == before
        } else if balance_in(debited, to) + amount > u128::MAX {
            r == Err::<(), TokenError>(TokenError::Overflow) && *self == before
        } else {
            &&& r == Ok::<(), TokenError>(())
            &&& self.accounts@ == debited.insert(to, (balance_in(debited, to) + amount) as Amount)
            &&& before.same_but_balances(self)
        }
    }

    /// Moves `amount` from `from` to `to`; only the owner of `from` may.
    pub fn transfer(
        &mut self,
        signer: AccountOwner,
        from: AccountOwner,
        to: AccountOwner,
        amount: Amount,
    ) -> (r: Result<(), TokenError>)
        ensures
            final(self).transferred(*old(self), signer, from, to, amount, r),
    {
        if signer != from {
            return Err(TokenError::Unauthorized);
        }
        let from_balance = self.balance(from);
        if from_balance < amount {
            return Err(TokenError::InsufficientFunds);
        }
        // The receiver's balance is read as it stands once the sender has
        // been debited, so that a transfer to oneself changes nothing.
        let to_before = if to == from {
            from_balance - amount
        } else {
            self.balance(to)
        };
        let to_after = match to_before.checked_add(amount) {
            Some(v) => v,
            None => {
                return Err(TokenError::Overflow);
            },
        };
        self.update_balance(from, from_balance - amount);
        self.update_balance(to, to_after);
        Ok(())
    }

    /// What minting `amount` to `to` on chain `chain_id` does to `before`.
    pub open spec fn minted(
        &self,
        before: TokenState,
        chain_id: u64,
        to: AccountOwner,
        amount: Amount,
        r: Result<(), TokenError>,
    ) -> bool {
        if chain_id != before.master_chain {
            r == Err::<(), TokenError>(TokenError::NotMasterChain) && *self == before
        } else if before.balance_of(to) + amount > u128::MAX || before.total_supply + amount
            > u128::MAX {
            r == Err::<(), TokenError>(TokenError::Overflow) && *self == before
        } else {
            &&& r == Ok::<(), TokenError>(())
            &&& self.accounts@ == before.accounts@.insert(
                to,
                (before.balance_of(to) + amount) as Amount,
            )
            &&& self.total_supply == before.total_supply + amount
            &&& self.daily_bonuses@ == before.daily_bonuses@
            &&& self.master_chain == before.master_chain
            &&& self.daily_bonus == before.daily_bonus
        }
    }

    /// Creates `amount` new tokens for `to`; only on the master chain.
    pub fn mint(&mut self, chain_id: u64, to: AccountOwner, amount: Amount) -> (r: Result<
        (),
        TokenError,
    >)
        ensures
            final(self).minted(*old(self), chain_id, to, amount, r),
    {
        if chain_id != self.master_chain {
            return Err(TokenError::NotMasterChain);
        }
        let balance = self.balance(to);
        let new_balance = match balance.checked_add(amount) {
            Some(v) => v,
            None => {
                return Err(TokenError::Overflow);
            },
        };
        let new_supply = match self.total_supply.checked_add(amount) {
            Some(v) => v,
            None => {
                return Err(TokenError::Overflow);
            },
        };
        self.update_balance(to, new_balance);
        self.total_supply = new_supply;
        Ok(())
    }

    /// The bonus record of `owner`: a fresh one when it never claimed.
    pub open spec fn bonus_of(&self, owner: AccountOwner) -> DailyBonus {
        if self.daily_bonuses@.contains_key(owner) {
            self.daily_bonuses@[owner]
        } else {
            DailyBonus { amount: self.daily_bonus, last_claim: 0 }
        }
    }

    /// What claiming the daily bonus of `owner` at `now` does to `before`.
    pub open spec fn bonus_claimed(
        &self,
        before: TokenState,
        owner: AccountOwner,
        now: u64,
        r: Result<Amount, TokenError>,
    ) -> bool {
        let bonus = before.bonus_of(owner);
        if !bonus.spec_can_claim(now) || bonus.amount == 0 {
            r == Err::<Amount, TokenError>(TokenError::BonusNotAvailable) && *self == before
        } else if before.balance_of(owner) + bonus.amount > u128::MAX {
            r == Err::<Amount, TokenError>(TokenError::Overflow) && *self == before
        } else {
            let credited = (before.balance_of(owner) + bonus.amount) as Amount;
            &&& r == Ok::<Amount, TokenError>(credited)
            &&& self.accounts@ == before.accounts@.insert(owner, credited)
            &&& self.daily_bonuses@ == before.daily_bonuses@.insert(
                owner,
                (DailyBonus { last_claim: now, ..bonus }),
            )
            &&& self.total_supply == before.total_supply
            &&& self.master_chain == before.master_chain
            &&& self.daily_bonus == before.daily_bonus
        }
    }

    /// Pays `owner` its daily bonus if a day has passed since its last claim,
    /// and returns its new balance.
    pub fn claim_bonus(&mut self, owner: AccountOwner, now: u64) -> (r: Result<Amount, TokenError>)
        ensures
            final(self).bonus_claimed(*old(self), owner, now, r),
    {
        let mut bonus = match self.daily_bonuses.get(&owner) {
            Some(b) => *b,
            None => DailyBonus { amount: self.daily_bonus, last_claim: 0 },
        };
        let balance = self.balance(owner);
        let claimed = bonus.claim(now);
        if claimed == 0 {
            return Err(TokenError::BonusNotAvailable);
        }
        let credited = match balance.checked_add(claimed) {
            Some(v) => v,
            None => {
                return Err(TokenError::Overflow);
            },
        };
        self.daily_bonuses.insert(owner, bonus);
        self.update_balance(owner, credited);
        Ok(credited)
    }

    /// Carries out one ledger command on behalf of `signer`, on chain
    /// `chain_id`, at `now`.
    pub fn execute_operation(
        &mut self,
        signer: AccountOwner,
        chain_id: u64,
        now: u64,
        operation: TokenOperation,
    ) -> (r: Result<TokenResponse, TokenError>)
        ensures
            match operation {
                TokenOperation::Balance { owner } => {
                    &&& r == Ok::<TokenResponse, TokenError>(
                        TokenResponse::Balance(old(self).balance_of(owner)),
                    )
                    &&& *final(self) == *old(self)
                },
                TokenOperation::UpdateBalance { owner, amount } => {
                    &&& r == Ok::<TokenResponse, TokenError>(TokenResponse::Done)
                    &&& final(self).accounts@ == old(self).accounts@.insert(owner, amount)
                    &&& old(self).same_but_balances(final(self))
                },
                TokenOperation::Transfer { from, to, amount } => final(self).transferred(
                    *old(self),
                    signer,
                    from,
                    to,
                    amount,
                    unit_result(r),
                ) && (r is Ok ==> r == Ok::<TokenResponse, TokenError>(TokenResponse::Done)),
                TokenOperation::Mint { to, amount } => final(self).minted(
                    *old(self),
                    chain_id,
                    to,
                    amount,
                    unit_result(r),
                ) && (r is Ok ==> r == Ok::<TokenResponse, TokenError>(TokenResponse::Done)),
                TokenOperation::ClaimBonus { owner } => exists|v: Result<Amount, TokenError>|
                    #[trigger] final(self).bonus_claimed(*old(self), owner, now, v) && r
                        == match v {
                        Ok(b) => Ok::<TokenResponse, TokenError>(TokenResponse::Balance(b)),
                        Err(e) => Err(e),
                    },
            },
    {
        match operation {
            TokenOperation::Balance { owner } => Ok(TokenResponse::Balance(self.balance(owner))),
            TokenOperation::UpdateBalance { owner, amount } => {
                self.update_balance(owner, amount);
                Ok(TokenResponse::Done)
            },
            TokenOperation::Transfer { from, to, amount } => match self.transfer(
                signer,
                from,
                to,
                amount,
            ) {
                Ok(()) => Ok(TokenResponse::Done),
                Err(e) => Err(e),
            },
            TokenOperation::Mint { to, amount } => match self.mint(chain_id, to, amount) {
                Ok(()) => Ok(TokenResponse::Done),
                Err(e) => Err(e),
            },
            TokenOperation::ClaimBonus { owner } => {
                let v = self.claim_bonus(owner, now);
                match v {
                    Ok(b) => Ok(TokenResponse::Balance(b)),
                    Err(e) => Err(e),
                }
            },
        }
    }

    /// Applies a notification: a balance set elsewhere is copied here; a
    /// mint elsewhere changes nothing here.
    pub fn execute_message(&mut self, message: TokenMessage)
        ensures
            match message {
                TokenMessage::BalanceUpdated { owner, new_balance } => {
                    &&& final(self).accounts@ == old(self).accounts@.insert(owner, new_balance)
                    &&& old(self).same_but_balances(final(self))
                },
                TokenMessage::TokensMinted { .. } => *final(self) == *old(self),
            },
    {
        match message {
            TokenMessage::BalanceUpdated { owner, new_balance } => {
                self.update_balance(owner, new_balance);
            },
            TokenMessage::TokensMinted { .. } => {},
        }
    }
}

} // verus!
