//! The interface of the token standard.

use vstd::prelude::*;
use crate::abi::AbiType;
use crate::interface::{
    error, error_model, errors_view, event, event_model, events_view, function, function_model,
    functions_view, ErrorModel, EventModel, FunctionModel, InterfaceError, InterfaceEvent,
    InterfaceFunction, TypePath,
};

verus! {

/// The functions of the token standard.
pub open spec fn itip20_functions(i: Seq<Seq<char>>) -> Seq<FunctionModel> {
    seq![
        function_model(i, "name", "name", true).returning(AbiType::String),
        function_model(i, "symbol", "symbol", true).returning(AbiType::String),
        function_model(i, "decimals", "decimals", true).returning(AbiType::Uint8),
        function_model(i, "currency", "currency", true).returning(AbiType::String),
        function_model(i, "total_supply", "totalSupply", true).returning(AbiType::Uint256),
        function_model(i, "supply_cap", "supplyCap", true).returning(AbiType::Uint256),
        function_model(i, "transfer_policy_id", "transferPolicyId", true)
            .returning(AbiType::Uint64),
        function_model(i, "paused", "paused", true).returning(AbiType::Bool),
        function_model(i, "quote_token", "quoteToken", true).returning(AbiType::Address),
        function_model(i, "next_quote_token", "nextQuoteToken", true)
            .returning(AbiType::Address),
        function_model(i, "balance_of", "balanceOf", true)
            .with_param("account", AbiType::Address)
            .returning(AbiType::Uint256),
        function_model(i, "allowance", "allowance", true)
            .with_param("owner", AbiType::Address)
            .with_param("spender", AbiType::Address)
            .returning(AbiType::Uint256),
        function_model(i, "transfer", "transfer", false)
            .with_param("to", AbiType::Address)
            .with_param("amount", AbiType::Uint256)
            .returning(AbiType::Bool),
        function_model(i, "transfer_from", "transferFrom", false)
            .with_param("from", AbiType::Address)
            .with_param("to", AbiType::Address)
            .with_param("amount", AbiType::Uint256)
            .returning(AbiType::Bool),
        function_model(i, "approve", "approve", false)
            .with_param("spender", AbiType::Address)
            .with_param("amount", AbiType::Uint256)
            .returning(AbiType::Bool),
        function_model(i, "transfer_from_with_memo", "transferFromWithMemo", false)
            .with_param("from", AbiType::Address)
            .with_param("to", AbiType::Address)
            .with_param("amount", AbiType::Uint256)
            .with_param("memo", AbiType::Bytes32)
            .returning(AbiType::Bool),
        function_model(i, "mint", "mint", false)
            .with_param("to", AbiType::Address)
            .with_param("amount", AbiType::Uint256),
        function_model(i, "burn", "burn", false).with_param("amount", AbiType::Uint256),
        function_model(i, "mint_with_memo", "mintWithMemo", false)
            .with_param("to", AbiType::Address)
            .with_param("amount", AbiType::Uint256)
            .with_param("memo", AbiType::Bytes32),
        function_model(i, "burn_with_memo", "burnWithMemo", false)
            .with_param("amount", AbiType::Uint256)
            .with_param("memo", AbiType::Bytes32),
        function_model(i, "burn_blocked", "burnBlocked", false)
            .with_param("from", AbiType::Address)
            .with_param("amount", AbiType::Uint256),
        function_model(i, "transfer_with_memo", "transferWithMemo", false)
            .with_param("to", AbiType::Address)
            .with_param("amount", AbiType::Uint256)
            .with_param("memo", AbiType::Bytes32),
        function_model(i, "change_transfer_policy_id", "changeTransferPolicyId", false)
            .with_param("new_policy_id", AbiType::Uint64),
        function_model(i, "set_supply_cap", "setSupplyCap", false)
            .with_param("new_supply_cap", AbiType::Uint256),
        function_model(i, "pause", "pause", false),
        function_model(i, "unpause", "unpause", false),
        function_model(i, "update_quote_token", "updateQuoteToken", false)
            .with_param("new_quote_token", AbiType::Address),
        function_model(i, "finalize_quote_token_update", "finalizeQuoteTokenUpdate", false),
    ]
}

/// The functions of the token standard, for the interface that is named by `i`.
pub fn get_itip20_functions(i: &TypePath) -> (r: Vec<InterfaceFunction>)
    ensures
        functions_view(r@) == itip20_functions(i@),
{
    let r = vec![
        function(i, "name", "name", true).returning(AbiType::String),
        function(i, "symbol", "symbol", true).returning(AbiType::String),
        function(i, "decimals", "decimals", true).returning(AbiType::Uint8),
        function(i, "currency", "currency", true).returning(AbiType::String),
        function(i, "total_supply", "totalSupply", true).returning(AbiType::Uint256),
        function(i, "supply_cap", "supplyCap", true).returning(AbiType::Uint256),
        function(i, "transfer_policy_id", "transferPolicyId", true)
            .returning(AbiType::Uint64),
        function(i, "paused", "paused", true).returning(AbiType::Bool),
        function(i, "quote_token", "quoteToken", true).returning(AbiType::Address),
        function(i, "next_quote_token", "nextQuoteToken", true)
            .returning(AbiType::Address),
        function(i, "balance_of", "balanceOf", true)
            .with_param("account", AbiType::Address)
            .returning(AbiType::Uint256),
        function(i, "allowance", "allowance", true)
            .with_param("owner", AbiType::Address)
            .with_param("spender", AbiType::Address)
            .returning(AbiType::Uint256),
        function(i, "transfer", "transfer", false)
            .with_param("to", AbiType::Address)
            .with_param("amount", AbiType::Uint256)
            .returning(AbiType::Bool),
        function(i, "transfer_from", "transferFrom", false)
            .with_param("from", AbiType::Address)
            .with_param("to", AbiType::Address)
            .with_param("amount", AbiType::Uint256)
            .returning(AbiType::Bool),
        function(i, "approve", "approve", false)
            .with_param("spender", AbiType::Address)
            .with_param("amount", AbiType::Uint256)
            .returning(AbiType::Bool),
        function(i, "transfer_from_with_memo", "transferFromWithMemo", false)
            .with_param("from", AbiType::Address)
            .with_param("to", AbiType::Address)
            .with_param("amount", AbiType::Uint256)
            .with_param("memo", AbiType::Bytes32)
            .returning(AbiType::Bool),
        function(i, "mint", "mint", false)
            .with_param("to", AbiType::Address)
            .with_param("amount", AbiType::Uint256),
        function(i, "burn", "burn", false).with_param("amount", AbiType::Uint256),
        function(i, "mint_with_memo", "mintWithMemo", false)
            .with_param("to", AbiType::Address)
            .with_param("amount", AbiType::Uint256)
            .with_param("memo", AbiType::Bytes32),
        function(i, "burn_with_memo", "burnWithMemo", false)
            .with_param("amount", AbiType::Uint256)
            .with_param("memo", AbiType::Bytes32),
        function(i, "burn_blocked", "burnBlocked", false)
            .with_param("from", AbiType::Address)
            .with_param("amount", AbiType::Uint256),
        function(i, "transfer_with_memo", "transferWithMemo", false)
            .with_param("to", AbiType::Address)
            .with_param("amount", AbiType::Uint256)
            .with_param("memo", AbiType::Bytes32),
        function(i, "change_transfer_policy_id", "changeTransferPolicyId", false)
            .with_param("new_policy_id", AbiType::Uint64),
        function(i, "set_supply_cap", "setSupplyCap", false)
            .with_param("new_supply_cap", AbiType::Uint256),
        function(i, "pause", "pause", false),
        function(i, "unpause", "unpause", false),
        function(i, "update_quote_token", "updateQuoteToken", false)
            .with_param("new_quote_token", AbiType::Address),
        function(i, "finalize_quote_token_update", "finalizeQuoteTokenUpdate", false),
    ];
    assert(functions_view(r@) =~= itip20_functions(i@));
    r
}

/// The events of the token standard.
pub open spec fn itip20_events(i: Seq<Seq<char>>) -> Seq<EventModel> {
    seq![
        event_model(i, "transfer", "Transfer")
            .indexed("from", AbiType::Address)
            .indexed("to", AbiType::Address)
            .data("amount", AbiType::Uint256),
        event_model(i, "approval", "Approval")
            .indexed("owner", AbiType::Address)
            .indexed("spender", AbiType::Address)
            .data("amount", AbiType::Uint256),
        event_model(i, "mint", "Mint")
            .indexed("to", AbiType::Address)
            .data("amount", AbiType::Uint256),
        event_model(i, "burn", "Burn")
            .indexed("from", AbiType::Address)
            .data("amount", AbiType::Uint256),
        event_model(i, "burn_blocked", "BurnBlocked")
            .indexed("from", AbiType::Address)
            .data("amount", AbiType::Uint256),
        event_model(i, "transfer_with_memo", "TransferWithMemo")
            .indexed("from", AbiType::Address)
            .indexed("to", AbiType::Address)
            .data("amount", AbiType::Uint256)
            .data("memo", AbiType::Bytes32),
        event_model(i, "transfer_policy_update", "TransferPolicyUpdate")
            .indexed("updater", AbiType::Address)
            .indexed("new_policy_id", AbiType::Uint64),
        event_model(i, "supply_cap_update", "SupplyCapUpdate")
            .indexed("updater", AbiType::Address)
            .indexed("new_supply_cap", AbiType::Uint256),
        event_model(i, "pause_state_update", "PauseStateUpdate")
            .indexed("updater", AbiType::Address)
            .data("is_paused", AbiType::Bool),
        event_model(i, "update_quote_token", "UpdateQuoteToken")
            .indexed("updater", AbiType::Address)
            .indexed("new_quote_token", AbiType::Address),
        event_model(i, "quote_token_update_finalized", "QuoteTokenUpdateFinalized")
            .indexed("updater", AbiType::Address)
            .indexed("new_quote_token", AbiType::Address),
    ]
}

/// The events of the token standard, for the interface that is named by `i`.
pub fn get_itip20_events(i: &TypePath) -> (r: Vec<InterfaceEvent>)
    ensures
        events_view(r@) == itip20_events(i@),
{
    let r = vec![
        event(i, "transfer", "Transfer")
            .indexed("from", AbiType::Address)
            .indexed("to", AbiType::Address)
            .data("amount", AbiType::Uint256),
        event(i, "approval", "Approval")
            .indexed("owner", AbiType::Address)
            .indexed("spender", AbiType::Address)
            .data("amount", AbiType::Uint256),
        event(i, "mint", "Mint")
            .indexed("to", AbiType::Address)
            .data("amount", AbiType::Uint256),
        event(i, "burn", "Burn")
            .indexed("from", AbiType::Address)
            .data("amount", AbiType::Uint256),
        event(i, "burn_blocked", "BurnBlocked")
            .indexed("from", AbiType::Address)
            .data("amount", AbiType::Uint256),
        event(i, "transfer_with_memo", "TransferWithMemo")
            .indexed("from", AbiType::Address)
            .indexed("to", AbiType::Address)
            .data("amount", AbiType::Uint256)
            .data("memo", AbiType::Bytes32),
        event(i, "transfer_policy_update", "TransferPolicyUpdate")
            .indexed("updater", AbiType::Address)
            .indexed("new_policy_id", AbiType::Uint64),
        event(i, "supply_cap_update", "SupplyCapUpdate")
            .indexed("updater", AbiType::Address)
            .indexed("new_supply_cap", AbiType::Uint256),
        event(i, "pause_state_update", "PauseStateUpdate")
            .indexed("updater", AbiType::Address)
            .data("is_paused", AbiType::Bool),
        event(i, "update_quote_token", "UpdateQuoteToken")
            .indexed("updater", AbiType::Address)
            .indexed("new_quote_token", AbiType::Address),
        event(i, "quote_token_update_finalized", "QuoteTokenUpdateFinalized")
            .indexed("updater", AbiType::Address)
            .indexed("new_quote_token", AbiType::Address),
    ];
    assert(events_view(r@) =~= itip20_events(i@));
    r
}

/// The errors of the token standard.
pub open spec fn itip20_errors(i: Seq<Seq<char>>) -> Seq<ErrorModel> {
    seq![
        error_model(i, "insufficient_balance", "InsufficientBalance")
            .with_param("account", AbiType::Address)
            .with_param("balance", AbiType::Uint256)
            .with_param("needed", AbiType::Uint256),
        error_model(i, "insufficient_allowance", "InsufficientAllowance")
            .with_param("owner", AbiType::Address)
            .with_param("spender", AbiType::Address)
            .with_param("allowance", AbiType::Uint256)
            .with_param("needed", AbiType::Uint256),
        error_model(i, "supply_cap_exceeded", "SupplyCapExceeded")
            .with_param("supply_cap", AbiType::Uint256)
            .with_param("total_supply", AbiType::Uint256)
            .with_param("amount", AbiType::Uint256),
        error_model(i, "invalid_supply_cap", "InvalidSupplyCap")
            .with_param("supply_cap", AbiType::Uint256),
        error_model(i, "unauthorized", "Unauthorized").with_param("account", AbiType::Address),
        error_model(i, "paused", "Paused"),
        error_model(i, "not_paused", "NotPaused"),
        error_model(i, "invalid_transfer_policy", "InvalidTransferPolicy")
            .with_param("policy_id", AbiType::Uint64),
        error_model(i, "transfer_policy_violation", "TransferPolicyViolation")
            .with_param("from", AbiType::Address)
            .with_param("to", AbiType::Address)
            .with_param("policy_id", AbiType::Uint64),
        error_model(i, "invalid_address", "InvalidAddress")
            .with_param("address", AbiType::Address),
        error_model(i, "invalid_amount", "InvalidAmount").with_param("amount", AbiType::Uint256),
        error_model(i, "no_pending_quote_token_update", "NoPendingQuoteTokenUpdate"),
        error_model(i, "quote_token_update_not_ready", "QuoteTokenUpdateNotReady")
            .with_param("current_time", AbiType::Uint256)
            .with_param("ready_time", AbiType::Uint256),
    ]
}

/// The errors of the token standard, for the interface that is named by `i`.
pub fn get_itip20_errors(i: &TypePath) -> (r: Vec<InterfaceError>)
    ensures
        errors_view(r@) == itip20_errors(i@),
{
    let r = vec![
        error(i, "insufficient_balance", "InsufficientBalance")
            .with_param("account", AbiType::Address)
            .with_param("balance", AbiType::Uint256)
            .with_param("needed", AbiType::Uint256),
        error(i, "insufficient_allowance", "InsufficientAllowance")
            .with_param("owner", AbiType::Address)
            .with_param("spender", AbiType::Address)
            .with_param("allowance", AbiType::Uint256)
            .with_param("needed", AbiType::Uint256),
        error(i, "supply_cap_exceeded", "SupplyCapExceeded")
            .with_param("supply_cap", AbiType::Uint256)
            .with_param("total_supply", AbiType::Uint256)
            .with_param("amount", AbiType::Uint256),
        error(i, "invalid_supply_cap", "InvalidSupplyCap")
            .with_param("supply_cap", AbiType::Uint256),
        error(i, "unauthorized", "Unauthorized").with_param("account", AbiType::Address),
        error(i, "paused", "Paused"),
        error(i, "not_paused", "NotPaused"),
        error(i, "invalid_transfer_policy", "InvalidTransferPolicy")
            .with_param("policy_id", AbiType::Uint64),
        error(i, "transfer_policy_violation", "TransferPolicyViolation")
            .with_param("from", AbiType::Address)
            .with_param("to", AbiType::Address)
            .with_param("policy_id", AbiType::Uint64),
        error(i, "invalid_address", "InvalidAddress")
            .with_param("address", AbiType::Address),
        error(i, "invalid_amount", "InvalidAmount").with_param("amount", AbiType::Uint256),
        error(i, "no_pending_quote_token_update", "NoPendingQuoteTokenUpdate"),
        error(i, "quote_token_update_not_ready", "QuoteTokenUpdateNotReady")
            .with_param("current_time", AbiType::Uint256)
            .with_param("ready_time", AbiType::Uint256),
    ];
    assert(errors_view(r@) =~= itip20_errors(i@));
    r
}

} // verus!
