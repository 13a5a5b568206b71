//! The interface of the token factory.

use vstd::prelude::*;
use crate::abi::AbiType;
use crate::interface::{
    errors_view, event, event_model, events_view, function, function_model, functions_view,
    ErrorModel, EventModel, FunctionModel, InterfaceError, InterfaceEvent, InterfaceFunction,
    TypePath,
};

verus! {

/// The functions of the token factory.
pub open spec fn tip20_factory_functions(i: Seq<Seq<char>>) -> Seq<FunctionModel> {
    seq![
        function_model(i, "create_token", "createToken", false)
            .with_param("name", AbiType::String)
            .with_param("symbol", AbiType::String)
            .with_param("currency", AbiType::String)
            .with_param("quote_token", AbiType::Address)
            .with_param("admin", AbiType::Address)
            .returning(AbiType::Uint256),
        function_model(i, "token_id_counter", "tokenIdCounter", true)
            .returning(AbiType::Uint256),
    ]
}

/// The functions of the token factory, for the interface that is named by `i`.
pub fn get_functions(i: &TypePath) -> (r: Vec<InterfaceFunction>)
    ensures
        functions_view(r@) == tip20_factory_functions(i@),
{
    let r = vec![
        function(i, "create_token", "createToken", false)
            .with_param("name", AbiType::String)
            .with_param("symbol", AbiType::String)
            .with_param("currency", AbiType::String)
            .with_param("quote_token", AbiType::Address)
            .with_param("admin", AbiType::Address)
            .returning(AbiType::Uint256),
        function(i, "token_id_counter", "tokenIdCounter", true)
            .returning(AbiType::Uint256),
    ];
    assert(functions_view(r@) =~= tip20_factory_functions(i@));
    r
}

/// The events of the token factory.
pub open spec fn tip20_factory_events(i: Seq<Seq<char>>) -> Seq<EventModel> {
    seq![
        event_model(i, "token_created", "TokenCreated")
            .indexed("token", AbiType::Address)
            .indexed("token_id", AbiType::Uint256)
            .data("name", AbiType::String)
            .data("symbol", AbiType::String)
            .data("currency", AbiType::String)
            .data("admin", AbiType::Address),
    ]
}

/// The events of the token factory, for the interface that is named by `i`.
pub fn get_events(i: &TypePath) -> (r: Vec<InterfaceEvent>)
    ensures
        events_view(r@) == tip20_factory_events(i@),
{
    let r = vec![
        event(i, "token_created", "TokenCreated")
            .indexed("token", AbiType::Address)
            .indexed("token_id", AbiType::Uint256)
            .data("name", AbiType::String)
            .data("symbol", AbiType::String)
            .data("currency", AbiType::String)
            .data("admin", AbiType::Address),
    ];
    assert(events_view(r@) =~= tip20_factory_events(i@));
    r
}

/// The errors of the token factory.
pub open spec fn tip20_factory_errors(i: Seq<Seq<char>>) -> Seq<ErrorModel> {
    Seq::empty()
}

/// The errors of the token factory, for the interface that is named by `i`.
pub fn get_errors(i: &TypePath) -> (r: Vec<InterfaceError>)
    ensures
        errors_view(r@) == tip20_factory_errors(i@),
{
    let r: Vec<InterfaceError> = Vec::new();
    assert(errors_view(r@) =~= tip20_factory_errors(i@));
    r
}

} // verus!
