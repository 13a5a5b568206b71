//! The interface of the fee manager.

use vstd::prelude::*;
use crate::abi::AbiType;
use crate::interface::{
    error, error_model, errors_view, event, event_model, events_view, function, function_model,
    functions_view, ErrorModel, EventModel, FunctionModel, InterfaceError, InterfaceEvent,
    InterfaceFunction, TypePath,
};

verus! {

/// The functions of the fee manager.
pub open spec fn fee_manager_functions(i: Seq<Seq<char>>) -> Seq<FunctionModel> {
    seq![
        function_model(i, "basis_points", "BASIS_POINTS", true).returning(AbiType::Uint256),
        function_model(i, "fee_bps", "FEE_BPS", true).returning(AbiType::Uint256),
        function_model(i, "user_tokens", "userTokens", true)
            .with_param("user", AbiType::Address)
            .returning(AbiType::Address),
        function_model(i, "validator_tokens", "validatorTokens", true)
            .with_param("validator", AbiType::Address)
            .returning(AbiType::Address),
        function_model(i, "get_fee_token_balance", "getFeeTokenBalance", true)
            .with_param("sender", AbiType::Address)
            .with_param("validator", AbiType::Address)
            .returning(AbiType::Address)
            .returning(AbiType::Uint256),
        function_model(i, "set_user_token", "setUserToken", false)
            .with_param("token", AbiType::Address),
        function_model(i, "set_validator_token", "setValidatorToken", false)
            .with_param("token", AbiType::Address),
        function_model(i, "execute_block", "executeBlock", false),
    ]
}

/// The functions of the fee manager, for the interface that is named by `i`.
pub fn get_functions(i: &TypePath) -> (r: Vec<InterfaceFunction>)
    ensures
        functions_view(r@) == fee_manager_functions(i@),
{
    let r = vec![
        function(i, "basis_points", "BASIS_POINTS", true).returning(AbiType::Uint256),
        function(i, "fee_bps", "FEE_BPS", true).returning(AbiType::Uint256),
        function(i, "user_tokens", "userTokens", true)
            .with_param("user", AbiType::Address)
            .returning(AbiType::Address),
        function(i, "validator_tokens", "validatorTokens", true)
            .with_param("validator", AbiType::Address)
            .returning(AbiType::Address),
        function(i, "get_fee_token_balance", "getFeeTokenBalance", true)
            .with_param("sender", AbiType::Address)
            .with_param("validator", AbiType::Address)
            .returning(AbiType::Address)
            .returning(AbiType::Uint256),
        function(i, "set_user_token", "setUserToken", false)
            .with_param("token", AbiType::Address),
        function(i, "set_validator_token", "setValidatorToken", false)
            .with_param("token", AbiType::Address),
        function(i, "execute_block", "executeBlock", false),
    ];
    assert(functions_view(r@) =~= fee_manager_functions(i@));
    r
}

/// The events of the fee manager.
pub open spec fn fee_manager_events(i: Seq<Seq<char>>) -> Seq<EventModel> {
    seq![
        event_model(i, "user_token_set", "UserTokenSet")
            .indexed("user", AbiType::Address)
            .indexed("token", AbiType::Address),
        event_model(i, "validator_token_set", "ValidatorTokenSet")
            .indexed("validator", AbiType::Address)
            .indexed("token", AbiType::Address),
    ]
}

/// The events of the fee manager, for the interface that is named by `i`.
pub fn get_events(i: &TypePath) -> (r: Vec<InterfaceEvent>)
    ensures
        events_view(r@) == fee_manager_events(i@),
{
    let r = vec![
        event(i, "user_token_set", "UserTokenSet")
            .indexed("user", AbiType::Address)
            .indexed("token", AbiType::Address),
        event(i, "validator_token_set", "ValidatorTokenSet")
            .indexed("validator", AbiType::Address)
            .indexed("token", AbiType::Address),
    ];
    assert(events_view(r@) =~= fee_manager_events(i@));
    r
}

/// The errors of the fee manager.
pub open spec fn fee_manager_errors(i: Seq<Seq<char>>) -> Seq<ErrorModel> {
    seq![
        error_model(i, "only_validator", "OnlyValidator"),
        error_model(i, "only_system_contract", "OnlySystemContract"),
        error_model(i, "invalid_token", "InvalidToken"),
        error_model(i, "pool_does_not_exist", "PoolDoesNotExist"),
        error_model(i, "insufficient_liquidity", "InsufficientLiquidity"),
        error_model(i, "insufficient_fee_token_balance", "InsufficientFeeTokenBalance"),
        error_model(i, "internal_error", "InternalError"),
        error_model(i, "cannot_change_within_block", "CannotChangeWithinBlock"),
        error_model(i, "token_policy_forbids", "TokenPolicyForbids"),
    ]
}

/// The errors of the fee manager, for the interface that is named by `i`.
pub fn get_errors(i: &TypePath) -> (r: Vec<InterfaceError>)
    ensures
        errors_view(r@) == fee_manager_errors(i@),
{
    let r = vec![
        error(i, "only_validator", "OnlyValidator"),
        error(i, "only_system_contract", "OnlySystemContract"),
        error(i, "invalid_token", "InvalidToken"),
        error(i, "pool_does_not_exist", "PoolDoesNotExist"),
        error(i, "insufficient_liquidity", "InsufficientLiquidity"),
        error(i, "insufficient_fee_token_balance", "InsufficientFeeTokenBalance"),
        error(i, "internal_error", "InternalError"),
        error(i, "cannot_change_within_block", "CannotChangeWithinBlock"),
        error(i, "token_policy_forbids", "TokenPolicyForbids"),
    ];
    assert(errors_view(r@) =~= fee_manager_errors(i@));
    r
}

} // verus!
