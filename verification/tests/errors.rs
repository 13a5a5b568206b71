use precompile_core::abi::{AbiType, AbiValue};
use precompile_core::error::PrecompileError;
use precompile_core::errors::{construct, gen_constructor, gen_error_helpers};
use precompile_core::interface::{get_error_enum_path, parse_interface, TypePath};
use precompile_core::primitives::{Address, U256};

fn path(segments: &[&str]) -> TypePath {
    TypePath::new(segments.iter().map(|s| s.to_string()).collect())
}

#[test]
fn test_get_error_enum_path() {
    let ty = path(&["ITIP20"]);
    let out = get_error_enum_path(&ty).unwrap();
    assert_eq!(out.to_string(), "ITIP20 :: ITIP20Errors");

    let ty = path(&["crate", "ITIP20"]);
    let out = get_error_enum_path(&ty).unwrap();
    assert_eq!(out.to_string(), "crate :: ITIP20 :: ITIP20Errors");

    let ty = path(&["ITestToken"]);
    let out = get_error_enum_path(&ty).unwrap();
    assert_eq!(out.to_string(), "ITestToken :: ITestTokenErrors");
}

#[test]
fn constructor_is_named_like_the_error() {
    let parsed = parse_interface(&path(&["IErrorTest"])).unwrap();
    let simple = gen_constructor(&parsed.errors[0]).unwrap();
    assert_eq!(simple.method_name, "simple_error");
    assert_eq!(simple.variant_name, "SimpleError");
    assert!(simple.params.is_empty());
    let with_params = gen_constructor(&parsed.errors[1]).unwrap();
    assert_eq!(with_params.method_name, "parameterized_error");
    assert_eq!(with_params.variant_name, "ParameterizedError");
    assert_eq!(
        with_params.params,
        vec![("code", AbiType::Uint256), ("addr", AbiType::Address)]
    );
    assert_eq!(with_params.error_type_path.to_string(), "IErrorTest :: ParameterizedError");
}

#[test]
fn helpers_skip_interfaces_without_errors() {
    let interfaces = vec![
        (path(&["ITestToken"]), parse_interface(&path(&["ITestToken"])).unwrap().errors),
        (path(&["crate", "ITIP20"]), parse_interface(&path(&["crate", "ITIP20"])).unwrap().errors),
        (path(&["IErrorTest"]), parse_interface(&path(&["IErrorTest"])).unwrap().errors),
    ];
    let helpers = gen_error_helpers(&interfaces);
    assert_eq!(helpers.len(), 2);
    assert_eq!(helpers[0].error_enum_path.to_string(), "crate :: ITIP20 :: ITIP20Errors");
    assert_eq!(helpers[0].methods.len(), 13);
    assert_eq!(helpers[0].methods[0].method_name, "insufficient_balance");
    assert_eq!(helpers[1].error_enum_path.to_string(), "IErrorTest :: IErrorTestErrors");
    assert_eq!(helpers[1].methods.len(), 2);
}

#[test]
fn constructed_error_reverts_with_selector_and_fields() {
    let parsed = parse_interface(&path(&["ITIP20"])).unwrap();
    let error = parsed.errors.iter().find(|e| e.name == "insufficient_balance").unwrap();
    let alice = Address::new([0xA1; 20]);
    let args = vec![
        AbiValue::Address(alice),
        AbiValue::Uint256(U256::from_u64(900)),
        AbiValue::Uint256(U256::from_u64(10_000)),
    ];
    let made = construct(error, args).unwrap();
    assert_eq!(made.signature, "InsufficientBalance(address,uint256,uint256)");
    let payload = PrecompileError::Custom(made).revert_payload();
    let direct = PrecompileError::InsufficientBalance {
        account: alice,
        balance: U256::from_u64(900),
        needed: U256::from_u64(10_000),
    }
    .revert_payload();
    assert_eq!(payload, direct);
    assert_eq!(payload.len(), 4 + 96);
    assert_eq!(
        payload[..4],
        alloy::primitives::keccak256("InsufficientBalance(address,uint256,uint256)")[..4]
    );
    assert_eq!(payload[4..16], [0u8; 12]);
    assert_eq!(payload[16..36], [0xA1; 20]);
    assert_eq!(payload[36 + 30..36 + 32], [0x03, 0x84]);
    assert_eq!(payload[68 + 30..68 + 32], [0x27, 0x10]);
}

#[test]
fn constructor_refuses_values_of_other_types() {
    let parsed = parse_interface(&path(&["ITIP20"])).unwrap();
    let error = parsed.errors.iter().find(|e| e.name == "unauthorized").unwrap();
    let r = construct(error, vec![AbiValue::Bool(true)]);
    assert_eq!(r.unwrap_err(), PrecompileError::AbiEncodeError("unauthorized"));
    let r = construct(error, vec![]);
    assert_eq!(r.unwrap_err(), PrecompileError::AbiEncodeError("unauthorized"));
}

#[test]
fn every_failure_has_its_payload() {
    let selector = |text: &str| alloy::primitives::keccak256(text)[..4].to_vec();
    assert_eq!(PrecompileError::NoActiveContext.revert_payload(), selector("NoActiveContext()"));
    assert_eq!(PrecompileError::InvalidSelector.revert_payload(), selector("InvalidSelector()"));
    assert_eq!(PrecompileError::UnknownSelector.revert_payload(), selector("UnknownSelector()"));
    assert_eq!(
        PrecompileError::StateMutabilityViolation.revert_payload(),
        selector("StateMutabilityViolation()")
    );
    assert_eq!(
        PrecompileError::AbiEncodeError("mint").revert_payload(),
        vec![0x4e, 0x48, 0x7b, 0x71]
    );
    let decode = PrecompileError::AbiDecodeError("mint").revert_payload();
    assert_eq!(decode[..4], selector("AbiDecodeError(string)")[..]);
    assert_eq!(decode.len(), 4 + 96);
    assert_eq!(decode[4 + 31], 0x20);
    assert_eq!(decode[4 + 63], 4);
    assert_eq!(&decode[4 + 64..4 + 68], b"mint");
    assert_eq!(decode[4 + 68..], [0u8; 28]);
}
