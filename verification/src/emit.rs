//! Event emission: from an event of an interface and the values of its
//! parameters to the record that is handed to the log.

use vstd::prelude::*;
use crate::abi::{
    encode, encoding, have_types, static_word, types_of, values_view, word_of, AbiTerm, AbiValue,
};
use crate::context::Context;
use crate::error::{PrecompileError, Result};
use crate::events::{words_view, LogModel};
use crate::hash::{keccak256, keccak256_digest};
use crate::interface::{event_param_types, types_of_event_params, EventModel, InterfaceEvent};
use crate::primitives::U256;

verus! {

/// The most parameters of one event that can be topics of its record, next to
/// the hash of its signature.
pub const MAX_INDEXED: usize = 3;

/// The topic that stands for the value of an indexed parameter: the word of the
/// value, or for a string the hash of its bytes.
pub open spec fn topic_of(v: AbiTerm) -> Seq<u8> {
    match v {
        AbiTerm::String(s) => keccak256_digest(s),
        v => static_word(v),
    }
}

/// The topics for the indexed ones of the first `n` parameters.
pub open spec fn indexed_topics(
    params: Seq<(&'static str, crate::abi::AbiType, bool)>,
    args: Seq<AbiTerm>,
    n: nat,
) -> Seq<Seq<u8>>
    decreases n,
{
    if n == 0 {
        Seq::empty()
    } else if params[n - 1].2 {
        indexed_topics(params, args, (n - 1) as nat).push(topic_of(args[n - 1]))
    } else {
        indexed_topics(params, args, (n - 1) as nat)
    }
}

/// The values of those of the first `n` parameters that are not indexed.
pub open spec fn data_values(
    params: Seq<(&'static str, crate::abi::AbiType, bool)>,
    args: Seq<AbiTerm>,
    n: nat,
) -> Seq<AbiTerm>
    decreases n,
{
    if n == 0 {
        Seq::empty()
    } else if params[n - 1].2 {
        data_values(params, args, (n - 1) as nat)
    } else {
        data_values(params, args, (n - 1) as nat).push(args[n - 1])
    }
}

/// Whether the values can be emitted as the event: they have the types of its
/// parameters, and no more parameters are indexed than a record has room for.
pub open spec fn emittable(event: EventModel, args: Seq<AbiTerm>) -> bool {
    types_of(args) == event_param_types(event.params) && indexed_topics(
        event.params,
        args,
        event.params.len(),
    ).len() <= MAX_INDEXED
}

/// The record of the event for the given values, emitted by the contract at
/// `address`: the hash of the signature and the indexed values as topics, the
/// encoding of the other values as data.
pub open spec fn event_record(event: EventModel, address: Seq<u8>, args: Seq<AbiTerm>) -> LogModel {
    LogModel {
        address,
        topics: seq![event.signature_hash()] + indexed_topics(
            event.params,
            args,
            event.params.len(),
        ),
        data: encoding(data_values(event.params, args, event.params.len())),
    }
}

/// The topic that stands for the value of an indexed parameter.
pub fn topic_for(v: &AbiValue) -> (r: U256)
    ensures
        r@ == topic_of(v@),
{
    match v {
        AbiValue::String(s) => keccak256(s.as_slice()),
        v => word_of(v),
    }
}

/// The topics and the data of the record of an event with the given values,
/// given the hash of the signature of the event. There are none for values
/// that cannot be emitted as the event.
pub fn record_parts(event: &InterfaceEvent, signature_hash: U256, args: &Vec<AbiValue>) -> (r:
    Result<(Vec<U256>, Vec<u8>)>)
    ensures
        match r {
            Ok((topics, data)) => emittable(event@, values_view(args@)) && words_view(topics@)
                == seq![signature_hash@] + indexed_topics(
                event.params@,
                values_view(args@),
                event.params@.len(),
            ) && data@ == encoding(
                data_values(event.params@, values_view(args@), event.params@.len()),
            ),
            Err(e) => !emittable(event@, values_view(args@)) && e
                == PrecompileError::AbiEncodeError(event.name),
        },
{
    let ghost vals = values_view(args@);
    let types = types_of_event_params(&event.params);
    if !have_types(args, &types) {
        return Err(PrecompileError::AbiEncodeError(event.name));
    }
    let n = event.params.len();
    proof {
        assert(types_of(vals).len() == args@.len());
        assert(event_param_types(event.params@).len() == event.params@.len());
    }
    let mut topics: Vec<U256> = Vec::new();
    topics.push(signature_hash);
    assert(words_view(topics@) =~= seq![signature_hash@]);
    let mut data: Vec<AbiValue> = Vec::new();
    let mut i: usize = 0;
    while i < n
        invariant
            i <= n,
            n == event.params@.len(),
            n == args@.len(),
            vals == values_view(args@),
            words_view(topics@) == seq![signature_hash@] + indexed_topics(
                event.params@,
                vals,
                i as nat,
            ),
            values_view(data@) == data_values(event.params@, vals, i as nat),
        decreases n - i,
    {
        let ghost topics_before = words_view(topics@);
        let ghost data_before = values_view(data@);
        if event.params[i].2 {
            topics.push(topic_for(&args[i]));
            assert(words_view(topics@) =~= topics_before.push(topic_of(vals[i as int])));
            assert(topics_before.push(topic_of(vals[i as int])) =~= seq![signature_hash@]
                + indexed_topics(event.params@, vals, (i + 1) as nat));
        } else {
            data.push(args[i].duplicate());
            assert(values_view(data@) =~= data_before.push(vals[i as int]));
        }
        i = i + 1;
    }
    if topics.len() > MAX_INDEXED + 1 {
        return Err(PrecompileError::AbiEncodeError(event.name));
    }
    Ok((topics, encode(&data)))
}

/// Emits the event with the given values under the address of the active frame.
///
/// Values that cannot be emitted as the event are refused first, then a call
/// without an active frame, then a static call. Where it fails nothing is
/// logged.
pub fn emit_event(ctx: &mut Context, event: &InterfaceEvent, args: &Vec<AbiValue>) -> (r: Result<
    (),
>)
    ensures
        match r {
            Ok(_) => emittable(event@, values_view(args@)) && old(ctx).refusal() is None
                && final(ctx).log() == old(ctx).log().push(
                event_record(event@, old(ctx).address(), values_view(args@)),
            ),
            Err(e) => final(ctx).logs == old(ctx).logs && if !emittable(
                event@,
                values_view(args@),
            ) {
                e == PrecompileError::AbiEncodeError(event.name)
            } else {
                old(ctx).refusal() == Some(e)
            },
        },
        final(ctx).stack == old(ctx).stack,
        final(ctx).storage == old(ctx).storage,
{
    match record_parts(event, event.signature_hash(), args) {
        Ok((topics, data)) => ctx.emit(topics, data),
        Err(e) => Err(e),
    }
}

} // verus!
