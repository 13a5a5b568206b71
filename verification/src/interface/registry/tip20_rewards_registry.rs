//! The interface of the rewards registry.

use vstd::prelude::*;
use crate::interface::{
    error, error_model, errors_view, events_view, function, function_model, functions_view,
    ErrorModel, EventModel, FunctionModel, InterfaceError, InterfaceEvent, InterfaceFunction,
    TypePath,
};

verus! {

/// The functions of the rewards registry.
pub open spec fn rewards_registry_functions(i: Seq<Seq<char>>) -> Seq<FunctionModel> {
    seq![
        function_model(i, "finalize_streams", "finalizeStreams", false),
    ]
}

/// The functions of the rewards registry, for the interface that is named by `i`.
pub fn get_functions(i: &TypePath) -> (r: Vec<InterfaceFunction>)
    ensures
        functions_view(r@) == rewards_registry_functions(i@),
{
    let r = vec![
        function(i, "finalize_streams", "finalizeStreams", false),
    ];
    assert(functions_view(r@) =~= rewards_registry_functions(i@));
    r
}

/// The events of the rewards registry.
pub open spec fn rewards_registry_events(i: Seq<Seq<char>>) -> Seq<EventModel> {
    Seq::empty()
}

/// The events of the rewards registry, for the interface that is named by `i`.
pub fn get_events(i: &TypePath) -> (r: Vec<InterfaceEvent>)
    ensures
        events_view(r@) == rewards_registry_events(i@),
{
    let r: Vec<InterfaceEvent> = Vec::new();
    assert(events_view(r@) =~= rewards_registry_events(i@));
    r
}

/// The errors of the rewards registry.
pub open spec fn rewards_registry_errors(i: Seq<Seq<char>>) -> Seq<ErrorModel> {
    seq![
        error_model(i, "unauthorized", "Unauthorized"),
        error_model(i, "streams_already_finalized", "StreamsAlreadyFinalized"),
    ]
}

/// The errors of the rewards registry, for the interface that is named by `i`.
pub fn get_errors(i: &TypePath) -> (r: Vec<InterfaceError>)
    ensures
        errors_view(r@) == rewards_registry_errors(i@),
{
    let r = vec![
        error(i, "unauthorized", "Unauthorized"),
        error(i, "streams_already_finalized", "StreamsAlreadyFinalized"),
    ];
    assert(errors_view(r@) =~= rewards_registry_errors(i@));
    r
}

} // verus!
