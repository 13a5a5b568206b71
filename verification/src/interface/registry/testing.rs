//! Small interfaces for trying out dispatchers, event emitters and error constructors.

use vstd::prelude::*;
use crate::abi::AbiType;
use crate::interface::{
    error, error_model, errors_view, event, event_model, events_view, function, function_model,
    functions_view, ErrorModel, EventModel, FunctionModel, InterfaceError, InterfaceEvent,
    InterfaceFunction, TypePath,
};

verus! {

/// The functions of the token that dispatchers are tried on.
pub open spec fn itest_token_functions(i: Seq<Seq<char>>) -> Seq<FunctionModel> {
    seq![
        function_model(i, "name", "name", true).returning(AbiType::String),
        function_model(i, "symbol", "symbol", true).returning(AbiType::String),
        function_model(i, "decimals", "decimals", true).returning(AbiType::Uint8),
        function_model(i, "balance_of", "balanceOf", true)
            .with_param("account", AbiType::Address)
            .returning(AbiType::Uint256),
        function_model(i, "allowance", "allowance", true)
            .with_param("owner", AbiType::Address)
            .with_param("spender", AbiType::Address)
            .returning(AbiType::Uint256),
        function_model(i, "transfer", "transfer", false)
            .with_param("to", AbiType::Address)
            .with_param("amount", AbiType::Uint256)
            .returning(AbiType::Bool),
        function_model(i, "approve", "approve", false)
            .with_param("spender", AbiType::Address)
            .with_param("amount", AbiType::Uint256)
            .returning(AbiType::Bool),
        function_model(i, "mint", "mint", false)
            .with_param("to", AbiType::Address)
            .with_param("amount", AbiType::Uint256),
        function_model(i, "burn", "burn", false).with_param("amount", AbiType::Uint256),
    ]
}

/// The functions of the token that dispatchers are tried on, for the interface that is named by `i`.
pub fn get_itest_token_functions(i: &TypePath) -> (r: Vec<InterfaceFunction>)
    ensures
        functions_view(r@) == itest_token_functions(i@),
{
    let r = vec![
        function(i, "name", "name", true).returning(AbiType::String),
        function(i, "symbol", "symbol", true).returning(AbiType::String),
        function(i, "decimals", "decimals", true).returning(AbiType::Uint8),
        function(i, "balance_of", "balanceOf", true)
            .with_param("account", AbiType::Address)
            .returning(AbiType::Uint256),
        function(i, "allowance", "allowance", true)
            .with_param("owner", AbiType::Address)
            .with_param("spender", AbiType::Address)
            .returning(AbiType::Uint256),
        function(i, "transfer", "transfer", false)
            .with_param("to", AbiType::Address)
            .with_param("amount", AbiType::Uint256)
            .returning(AbiType::Bool),
        function(i, "approve", "approve", false)
            .with_param("spender", AbiType::Address)
            .with_param("amount", AbiType::Uint256)
            .returning(AbiType::Bool),
        function(i, "mint", "mint", false)
            .with_param("to", AbiType::Address)
            .with_param("amount", AbiType::Uint256),
        function(i, "burn", "burn", false).with_param("amount", AbiType::Uint256),
    ];
    assert(functions_view(r@) =~= itest_token_functions(i@));
    r
}

/// The functions of the second interface of a contract with two.
pub open spec fn imetadata_functions(i: Seq<Seq<char>>) -> Seq<FunctionModel> {
    seq![
        function_model(i, "version", "version", true).returning(AbiType::Uint256),
        function_model(i, "owner", "owner", true).returning(AbiType::Address),
    ]
}

/// The functions of the second interface of a contract with two, for the interface that is named by `i`.
pub fn get_imetadata_functions(i: &TypePath) -> (r: Vec<InterfaceFunction>)
    ensures
        functions_view(r@) == imetadata_functions(i@),
{
    let r = vec![
        function(i, "version", "version", true).returning(AbiType::Uint256),
        function(i, "owner", "owner", true).returning(AbiType::Address),
    ];
    assert(functions_view(r@) =~= imetadata_functions(i@));
    r
}

/// The functions of the token that event emission is tried on.
pub open spec fn imini_token_functions(i: Seq<Seq<char>>) -> Seq<FunctionModel> {
    seq![
        function_model(i, "mint", "mint", false)
            .with_param("to", AbiType::Address)
            .with_param("amount", AbiType::Uint256),
    ]
}

/// The functions of the token that event emission is tried on, for the interface that is named by `i`.
pub fn get_imini_token_functions(i: &TypePath) -> (r: Vec<InterfaceFunction>)
    ensures
        functions_view(r@) == imini_token_functions(i@),
{
    let r = vec![
        function(i, "mint", "mint", false)
            .with_param("to", AbiType::Address)
            .with_param("amount", AbiType::Uint256),
    ];
    assert(functions_view(r@) =~= imini_token_functions(i@));
    r
}

/// The events of the token that event emission is tried on.
pub open spec fn imini_token_events(i: Seq<Seq<char>>) -> Seq<EventModel> {
    seq![
        event_model(i, "transfer", "Transfer")
            .indexed("from", AbiType::Address)
            .indexed("to", AbiType::Address)
            .data("amount", AbiType::Uint256),
        event_model(i, "mint", "Mint")
            .indexed("to", AbiType::Address)
            .data("amount", AbiType::Uint256),
    ]
}

/// The events of the token that event emission is tried on, for the interface that is named by `i`.
pub fn get_imini_token_events(i: &TypePath) -> (r: Vec<InterfaceEvent>)
    ensures
        events_view(r@) == imini_token_events(i@),
{
    let r = vec![
        event(i, "transfer", "Transfer")
            .indexed("from", AbiType::Address)
            .indexed("to", AbiType::Address)
            .data("amount", AbiType::Uint256),
        event(i, "mint", "Mint")
            .indexed("to", AbiType::Address)
            .data("amount", AbiType::Uint256),
    ];
    assert(events_view(r@) =~= imini_token_events(i@));
    r
}

/// The functions of the interface that error constructors are tried on.
pub open spec fn ierror_test_functions(i: Seq<Seq<char>>) -> Seq<FunctionModel> {
    seq![
        function_model(i, "dummy", "dummy", false),
    ]
}

/// The functions of the interface that error constructors are tried on, for the interface that is named by `i`.
pub fn get_ierror_test_functions(i: &TypePath) -> (r: Vec<InterfaceFunction>)
    ensures
        functions_view(r@) == ierror_test_functions(i@),
{
    let r = vec![
        function(i, "dummy", "dummy", false),
    ];
    assert(functions_view(r@) =~= ierror_test_functions(i@));
    r
}

/// The errors of the interface that error constructors are tried on.
pub open spec fn ierror_test_errors(i: Seq<Seq<char>>) -> Seq<ErrorModel> {
    seq![
        error_model(i, "simple_error", "SimpleError"),
        error_model(i, "parameterized_error", "ParameterizedError")
            .with_param("code", AbiType::Uint256)
            .with_param("addr", AbiType::Address),
    ]
}

/// The errors of the interface that error constructors are tried on, for the interface that is named by `i`.
pub fn get_ierror_test_errors(i: &TypePath) -> (r: Vec<InterfaceError>)
    ensures
        errors_view(r@) == ierror_test_errors(i@),
{
    let r = vec![
        error(i, "simple_error", "SimpleError"),
        error(i, "parameterized_error", "ParameterizedError")
            .with_param("code", AbiType::Uint256)
            .with_param("addr", AbiType::Address),
    ];
    assert(errors_view(r@) =~= ierror_test_errors(i@));
    r
}

} // verus!
