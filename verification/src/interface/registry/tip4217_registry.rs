//! The interface of the currency registry.

use vstd::prelude::*;
use crate::abi::AbiType;
use crate::interface::{
    errors_view, events_view, function, function_model, functions_view, ErrorModel, EventModel,
    FunctionModel, InterfaceError, InterfaceEvent, InterfaceFunction, TypePath,
};

verus! {

/// The functions of the currency registry.
pub open spec fn currency_registry_functions(i: Seq<Seq<char>>) -> Seq<FunctionModel> {
    seq![
        function_model(i, "get_currency_decimals", "getCurrencyDecimals", true)
            .with_param("currency", AbiType::String)
            .returning(AbiType::Uint8),
    ]
}

/// The functions of the currency registry, for the interface that is named by `i`.
pub fn get_functions(i: &TypePath) -> (r: Vec<InterfaceFunction>)
    ensures
        functions_view(r@) == currency_registry_functions(i@),
{
    let r = vec![
        function(i, "get_currency_decimals", "getCurrencyDecimals", true)
            .with_param("currency", AbiType::String)
            .returning(AbiType::Uint8),
    ];
    assert(functions_view(r@) =~= currency_registry_functions(i@));
    r
}

/// The events of the currency registry.
pub open spec fn currency_registry_events(i: Seq<Seq<char>>) -> Seq<EventModel> {
    Seq::empty()
}

/// The events of the currency registry, for the interface that is named by `i`.
pub fn get_events(i: &TypePath) -> (r: Vec<InterfaceEvent>)
    ensures
        events_view(r@) == currency_registry_events(i@),
{
    let r: Vec<InterfaceEvent> = Vec::new();
    assert(events_view(r@) =~= currency_registry_events(i@));
    r
}

/// The errors of the currency registry.
pub open spec fn currency_registry_errors(i: Seq<Seq<char>>) -> Seq<ErrorModel> {
    Seq::empty()
}

/// The errors of the currency registry, for the interface that is named by `i`.
pub fn get_errors(i: &TypePath) -> (r: Vec<InterfaceError>)
    ensures
        errors_view(r@) == currency_registry_errors(i@),
{
    let r: Vec<InterfaceError> = Vec::new();
    assert(errors_view(r@) =~= currency_registry_errors(i@));
    r
}

} // verus!
