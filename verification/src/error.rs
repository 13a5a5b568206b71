//! The failures that the storage and dispatch core reports, and the revert
//! payload that each of them reaches the host as.

use vstd::prelude::*;
use vstd::string::StringSliceAdditionalSpecFns;
use crate::abi::{encode, encoding, values_view, AbiTerm, AbiValue};
use crate::hash::{selector, text_selector};
use crate::primitives::{Address, U256};

verus! {

/// An error that an interface defines, with the values of its parameters.
#[derive(Clone, Debug, PartialEq, Eq)]
pub struct ContractError {
    /// The canonical signature of the error.
    pub signature: String,
    /// The values of the parameters, in their order.
    pub args: Vec<AbiValue>,
}

/// A failure of a native call. Each one reaches the host as a revert.
#[derive(Clone, Debug, PartialEq, Eq)]
pub enum PrecompileError {
    /// Storage was read or written while no context frame was active.
    NoActiveContext,
    /// The calldata is shorter than a selector.
    InvalidSelector,
    /// No function of the contract has the selector of the calldata.
    UnknownSelector,
    /// The arguments of the named function could not be decoded.
    AbiDecodeError(&'static str),
    /// The values handed over for the named function, event or error do not
    /// have the types that it declares.
    AbiEncodeError(&'static str),
    /// A function that changes state was called in a static call.
    StateMutabilityViolation,
    /// An account holds less than a transfer needs.
    InsufficientBalance { account: Address, balance: U256, needed: U256 },
    /// An error that an interface defines.
    Custom(ContractError),
}

/// The result of an operation of a native contract.
pub type Result<T> = core::result::Result<T, PrecompileError>;

/// The selector that stands for a failure without a class of its own.
pub open spec fn panic_selector() -> Seq<u8> {
    seq![0x4eu8, 0x48u8, 0x7bu8, 0x71u8]
}

/// The values that the revert payload of a failure carries behind its selector.
pub open spec fn revert_fields(e: PrecompileError) -> Seq<AbiTerm> {
    match e {
        PrecompileError::AbiDecodeError(name) => seq![AbiTerm::String(name.spec_bytes())],
        PrecompileError::InsufficientBalance { account, balance, needed } => seq![
            AbiTerm::Address(account@),
            AbiTerm::Uint256(balance@),
            AbiTerm::Uint256(needed@),
        ],
        PrecompileError::Custom(c) => values_view(c.args@),
        _ => Seq::empty(),
    }
}

/// The canonical signature of the error that a failure reverts with; a failure
/// without a class of its own has none.
pub open spec fn revert_signature(e: PrecompileError) -> Option<Seq<char>> {
    match e {
        PrecompileError::NoActiveContext => Some("NoActiveContext()"@),
        PrecompileError::InvalidSelector => Some("InvalidSelector()"@),
        PrecompileError::UnknownSelector => Some("UnknownSelector()"@),
        PrecompileError::AbiDecodeError(_) => Some("AbiDecodeError(string)"@),
        PrecompileError::AbiEncodeError(_) => None,
        PrecompileError::StateMutabilityViolation => Some("StateMutabilityViolation()"@),
        PrecompileError::InsufficientBalance { .. } => Some(
            "InsufficientBalance(address,uint256,uint256)"@,
        ),
        PrecompileError::Custom(c) => Some(c.signature@),
    }
}

/// The revert payload of a failure: the selector of its error and the encoding
/// of the values of the error; for a failure without a class of its own, the
/// panic selector alone.
pub open spec fn revert_data(e: PrecompileError) -> Seq<u8> {
    match revert_signature(e) {
        Some(signature) => text_selector(signature) + encoding(revert_fields(e)),
        None => panic_selector(),
    }
}

/// Puts the selector `selector` in front of the encoding of `fields`.
pub fn payload_from_selector(selector: [u8; 4], fields: &Vec<AbiValue>) -> (r: Vec<u8>)
    ensures
        r@ == selector@ + encoding(values_view(fields@)),
{
    let mut out: Vec<u8> = Vec::new();
    out.push(selector[0]);
    out.push(selector[1]);
    out.push(selector[2]);
    out.push(selector[3]);
    assert(out@ =~= selector@);
    let body = encode(fields);
    let mut i: usize = 0;
    while i < body.len()
        invariant
            i <= body@.len(),
            out@ == selector@ + body@.subrange(0, i as int),
        decreases body@.len() - i,
    {
        out.push(body[i]);
        assert(out@ =~= selector@ + body@.subrange(0, i + 1));
        i = i + 1;
    }
    assert(body@.subrange(0, body@.len() as int) =~= body@);
    out
}

/// The four bytes of the panic selector.
pub fn panic_payload() -> (r: Vec<u8>)
    ensures
        r@ == panic_selector(),
{
    let mut out: Vec<u8> = Vec::new();
    out.push(0x4e);
    out.push(0x48);
    out.push(0x7b);
    out.push(0x71);
    assert(out@ =~= panic_selector());
    out
}

/// Copies the bytes of a text.
fn text_bytes(text: &str) -> (r: Vec<u8>)
    ensures
        r@ == text.spec_bytes(),
{
    let bytes = text.as_bytes();
    let mut out: Vec<u8> = Vec::new();
    let mut i: usize = 0;
    while i < bytes.len()
        invariant
            i <= bytes@.len(),
            out@ == bytes@.subrange(0, i as int),
        decreases bytes@.len() - i,
    {
        out.push(bytes[i]);
        assert(out@ =~= bytes@.subrange(0, i + 1));
        i = i + 1;
    }
    assert(bytes@.subrange(0, bytes@.len() as int) =~= bytes@);
    out
}

impl PrecompileError {
    /// The revert payload of the failure.
    pub fn revert_payload(&self) -> (r: Vec<u8>)
        ensures
            r@ == revert_data(*self),
    {
        match self {
            PrecompileError::NoActiveContext => {
                let fields: Vec<AbiValue> = Vec::new();
                assert(values_view(fields@) =~= revert_fields(*self));
                payload_from_selector(selector("NoActiveContext()"), &fields)
            },
            PrecompileError::InvalidSelector => {
                let fields: Vec<AbiValue> = Vec::new();
                assert(values_view(fields@) =~= revert_fields(*self));
                payload_from_selector(selector("InvalidSelector()"), &fields)
            },
            PrecompileError::UnknownSelector => {
                let fields: Vec<AbiValue> = Vec::new();
                assert(values_view(fields@) =~= revert_fields(*self));
                payload_from_selector(selector("UnknownSelector()"), &fields)
            },
            PrecompileError::StateMutabilityViolation => {
                let fields: Vec<AbiValue> = Vec::new();
                assert(values_view(fields@) =~= revert_fields(*self));
                payload_from_selector(selector("StateMutabilityViolation()"), &fields)
            },
            PrecompileError::AbiDecodeError(name) => {
                let mut fields: Vec<AbiValue> = Vec::new();
                fields.push(AbiValue::String(text_bytes(name)));
                assert(values_view(fields@) =~= revert_fields(*self));
                payload_from_selector(selector("AbiDecodeError(string)"), &fields)
            },
            PrecompileError::AbiEncodeError(_) => panic_payload(),
            PrecompileError::InsufficientBalance { account, balance, needed } => {
                let mut fields: Vec<AbiValue> = Vec::new();
                fields.push(AbiValue::Address(*account));
                fields.push(AbiValue::Uint256(*balance));
                fields.push(AbiValue::Uint256(*needed));
                assert(values_view(fields@) =~= revert_fields(*self));
                payload_from_selector(
                    selector("InsufficientBalance(address,uint256,uint256)"),
                    &fields,
                )
            },
            PrecompileError::Custom(c) => payload_from_selector(
                selector(c.signature.as_str()),
                &c.args,
            ),
        }
    }
}

} // verus!
