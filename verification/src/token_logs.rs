//! From the logs of the token contracts to the records that the token queries
//! of the node answer with.

use vstd::prelude::*;
use crate::primitives::{Address, U256};

verus! {

/// What the log of a created token holds.
#[derive(Debug)]
pub struct TokenCreatedLog {
    /// The time of the block of the log, where the node knows it.
    pub block_timestamp: Option<u64>,
    /// The contract that emitted the log.
    pub emitter: Address,
    pub token: Address,
    pub token_id: U256,
    pub name: String,
    pub symbol: String,
    pub currency: String,
}

/// A token as the queries report it.
#[derive(Debug)]
pub struct Token {
    pub created_at: u64,
    pub address: Address,
    pub creator: Address,
    pub decimals: u32,
    pub paused: bool,
    pub quote_token: Address,
    pub supply_cap: u128,
    pub token_id: U256,
    pub currency: String,
    pub name: String,
    pub symbol: String,
    pub total_supply: u128,
    pub transfer_policy_id: u64,
}

/// A number of the block of a log, or zero where the node does not know it.
pub open spec fn known_or_zero(value: Option<u64>) -> u64 {
    match value {
        Some(v) => v,
        None => 0,
    }
}

/// Whether `token` is the token that the log of its creation tells of. What the
/// log does not tell is reported as for a new token: two decimals, not paused,
/// quoted in itself, nothing supplied, no cap and no policy.
pub open spec fn reports_token(log: TokenCreatedLog, token: Token) -> bool {
    &&& token.created_at == known_or_zero(log.block_timestamp)
    &&& token.address == log.token
    &&& token.creator == log.emitter
    &&& token.decimals == 2
    &&& !token.paused
    &&& token.quote_token == log.token
    &&& token.supply_cap == 0
    &&& token.token_id == log.token_id
    &&& token.currency == log.currency
    &&& token.name == log.name
    &&& token.symbol == log.symbol
    &&& token.total_supply == 0
    &&& token.transfer_policy_id == 0
}

/// The token that a log of its creation tells of.
pub fn token_from_log(log: &TokenCreatedLog) -> (r: Token)
    ensures
        reports_token(*log, r),
{
    Token {
        created_at: match log.block_timestamp {
            Some(t) => t,
            None => 0,
        },
        address: log.token,
        creator: log.emitter,
        decimals: 2,
        paused: false,
        quote_token: log.token,
        supply_cap: 0,
        token_id: log.token_id,
        currency: log.currency.clone(),
        name: log.name.clone(),
        symbol: log.symbol.clone(),
        total_supply: 0,
        transfer_policy_id: 0,
    }
}

/// The answer to a query for tokens.
#[derive(Debug)]
pub struct TokensResponse {
    /// Where the next page begins; the logs are answered in one page.
    pub next_cursor: Option<String>,
    pub tokens: Vec<Token>,
}

/// A token as a query for the tokens of an account reports it.
#[derive(Debug)]
pub struct AccountToken {
    pub balance: U256,
    pub roles: Vec<String>,
    pub token: Token,
}

/// The answer to a query for the tokens of an account.
#[derive(Debug)]
pub struct TokensByAddressResponse {
    /// Where the next page begins; the logs are answered in one page.
    pub next_cursor: Option<String>,
    pub tokens: Vec<AccountToken>,
}

/// What the log of a changed role holds.
#[derive(Debug)]
pub struct RoleMembershipLog {
    pub block_timestamp: Option<u64>,
    pub block_number: Option<u64>,
    pub transaction_hash: Option<U256>,
    /// The contract that emitted the log.
    pub emitter: Address,
    pub has_role: bool,
    pub account: Address,
    pub role: U256,
    pub sender: Address,
}

/// A change of a role as the queries report it.
#[derive(Debug)]
pub struct RoleChange {
    pub timestamp: u64,
    pub block_number: u64,
    pub transaction_hash: U256,
    pub token: Address,
    pub granted: bool,
    pub account: Address,
    pub role: U256,
    pub sender: Address,
}

/// Whether `change` is the change of a role that the log tells of. What the
/// node does not know of the block is reported as zero.
pub open spec fn reports_role_change(log: RoleMembershipLog, change: RoleChange) -> bool {
    &&& change.timestamp == known_or_zero(log.block_timestamp)
    &&& change.block_number == known_or_zero(log.block_number)
    &&& match log.transaction_hash {
        Some(hash) => change.transaction_hash == hash,
        None => change.transaction_hash@ == Seq::new(32, |i: int| 0u8),
    }
    &&& change.token == log.emitter
    &&& change.granted == log.has_role
    &&& change.account == log.account
    &&& change.role == log.role
    &&& change.sender == log.sender
}

/// The change of a role that a log tells of.
pub fn role_change_from_log(log: &RoleMembershipLog) -> (r: RoleChange)
    ensures
        reports_role_change(*log, r),
{
    RoleChange {
        timestamp: match log.block_timestamp {
            Some(t) => t,
            None => 0,
        },
        block_number: match log.block_number {
            Some(n) => n,
            None => 0,
        },
        transaction_hash: match log.transaction_hash {
            Some(hash) => hash,
            None => U256::zero(),
        },
        token: log.emitter,
        granted: log.has_role,
        account: log.account,
        role: log.role,
        sender: log.sender,
    }
}

/// The answer to a query for the history of roles.
#[derive(Debug)]
pub struct RoleHistoryResponse {
    /// Where the next page begins; the logs are answered in one page.
    pub next_cursor: Option<String>,
    pub role_changes: Vec<RoleChange>,
}

/// The logs of created tokens whose token is `address`, among the first `n`
/// logs and in their order.
pub open spec fn created_at_address(logs: Seq<TokenCreatedLog>, address: Seq<u8>, n: nat) -> Seq<
    TokenCreatedLog,
>
    decreases n,
{
    if n == 0 {
        Seq::empty()
    } else if logs[n - 1].token@ == address {
        created_at_address(logs, address, (n - 1) as nat).push(logs[n - 1])
    } else {
        created_at_address(logs, address, (n - 1) as nat)
    }
}

/// The token queries of the node, as far as they are answered from logs.
pub struct TempoToken;

impl TempoToken {
    /// Answers a query for the history of roles from the logs of the changes:
    /// one change for each log, in the order of the logs.
    pub fn roles_using_logs(&self, logs: &Vec<RoleMembershipLog>) -> (r: RoleHistoryResponse)
        ensures
            r.next_cursor is None,
            r.role_changes@.len() == logs@.len(),
            forall|i: int|
                0 <= i < logs@.len() ==> reports_role_change(
                    logs@[i],
                    #[trigger] r.role_changes@[i],
                ),
    {
        let mut role_changes: Vec<RoleChange> = Vec::new();
        let mut i: usize = 0;
        while i < logs.len()
            invariant
                i <= logs@.len(),
                role_changes@.len() == i,
                forall|k: int|
                    0 <= k < i ==> reports_role_change(logs@[k], #[trigger] role_changes@[k]),
            decreases logs@.len() - i,
        {
            role_changes.push(role_change_from_log(&logs[i]));
            i = i + 1;
        }
        RoleHistoryResponse { next_cursor: None, role_changes }
    }

    /// Answers a query for tokens from the logs of their creation: one token
    /// for each log, in the order of the logs.
    pub fn tokens_using_logs(&self, logs: &Vec<TokenCreatedLog>) -> (r: TokensResponse)
        ensures
            r.next_cursor is None,
            r.tokens@.len() == logs@.len(),
            forall|i: int|
                0 <= i < logs@.len() ==> reports_token(logs@[i], #[trigger] r.tokens@[i]),
    {
        let mut tokens: Vec<Token> = Vec::new();
        let mut i: usize = 0;
        while i < logs.len()
            invariant
                i <= logs@.len(),
                tokens@.len() == i,
                forall|k: int| 0 <= k < i ==> reports_token(logs@[k], #[trigger] tokens@[k]),
            decreases logs@.len() - i,
        {
            tokens.push(token_from_log(&logs[i]));
            i = i + 1;
        }
        TokensResponse { next_cursor: None, tokens }
    }

    /// Answers a query for the tokens at `address` from the logs of created
    /// tokens: one token for each log whose token is `address`, in the order
    /// of the logs, with no balance and no role.
    pub fn tokens_by_addresses_using_logs(
        &self,
        address: &Address,
        logs: &Vec<TokenCreatedLog>,
    ) -> (r: TokensByAddressResponse)
        ensures
            r.next_cursor is None,
            r.tokens@.len() == created_at_address(logs@, address@, logs@.len()).len(),
            forall|i: int|
                0 <= i < r.tokens@.len() ==> reports_token(
                    created_at_address(logs@, address@, logs@.len())[i],
                    (#[trigger] r.tokens@[i]).token,
                ) && r.tokens@[i].balance.value() == 0 && r.tokens@[i].roles@.len() == 0,
    {
        let mut tokens: Vec<AccountToken> = Vec::new();
        let mut i: usize = 0;
        while i < logs.len()
            invariant
                i <= logs@.len(),
                tokens@.len() == created_at_address(logs@, address@, i as nat).len(),
                forall|k: int|
                    0 <= k < tokens@.len() ==> reports_token(
                        created_at_address(logs@, address@, i as nat)[k],
                        (#[trigger] tokens@[k]).token,
                    ) && tokens@[k].balance.value() == 0 && tokens@[k].roles@.len() == 0,
            decreases logs@.len() - i,
        {
            if logs[i].token == *address {
                tokens.push(
                    AccountToken {
                        balance: U256::zero(),
                        roles: Vec::new(),
                        token: token_from_log(&logs[i]),
                    },
                );
            }
            i = i + 1;
        }
        TokensByAddressResponse { next_cursor: None, tokens }
    }
}

} // verus!
