use precompile_core::abi::AbiType;
use precompile_core::interface::{
    get_event_enum_path, is_known_interface, parse_interface, try_extract_type_ident,
    CatalogueError, FunctionKind, InterfaceFunction, TypePath,
};

fn path(segments: &[&str]) -> TypePath {
    TypePath::new(segments.iter().map(|s| s.to_string()).collect())
}

fn new_fn(
    name: &'static str,
    params: Vec<(&'static str, AbiType)>,
    return_type: Vec<AbiType>,
    is_view: bool,
) -> InterfaceFunction {
    InterfaceFunction {
        name,
        sol_name: "test",
        params,
        return_type,
        is_view,
        call_type_path: path(&["ITIP20", "testCall"]),
    }
}

#[test]
fn interface_test_extract_interface_ident() {
    let ty = path(&["ITIP20"]);
    let ident = try_extract_type_ident(&ty).unwrap();
    assert_eq!(ident.to_string(), "ITIP20");

    let ty = path(&["crate", "ITIP20"]);
    let ident = try_extract_type_ident(&ty).unwrap();
    assert_eq!(ident.to_string(), "ITIP20");
}

#[test]
fn tests_test_extract_interface_ident() {
    let ty = path(&["ITIP20"]);
    let ident = try_extract_type_ident(&ty).unwrap();
    assert_eq!(ident.to_string(), "ITIP20");

    let ty = path(&["crate", "ITIP20"]);
    let ident = try_extract_type_ident(&ty).unwrap();
    assert_eq!(ident.to_string(), "ITIP20");
}

#[test]
fn interface_test_get_event_enum_path() {
    let ty = path(&["ITIP20"]);
    let path_out = get_event_enum_path(&ty).unwrap();
    assert_eq!(path_out.to_string(), "ITIP20Events");

    let ty = path(&["crate", "ITIP20"]);
    let path_out = get_event_enum_path(&ty).unwrap();
    assert_eq!(path_out.to_string(), "crate :: ITIP20Events");

    let ty = path(&["ITestToken"]);
    let path_out = get_event_enum_path(&ty).unwrap();
    assert_eq!(path_out.to_string(), "ITestTokenEvents");
}

#[test]
fn tests_test_get_event_enum_path() {
    let ty = path(&["ITIP20"]);
    let path_out = get_event_enum_path(&ty).unwrap();
    assert_eq!(path_out.to_string(), "ITIP20Events");

    let ty = path(&["crate", "ITIP20"]);
    let path_out = get_event_enum_path(&ty).unwrap();
    assert_eq!(path_out.to_string(), "crate :: ITIP20Events");

    let ty = path(&["ITestToken"]);
    let path_out = get_event_enum_path(&ty).unwrap();
    assert_eq!(path_out.to_string(), "ITestTokenEvents");
}

#[test]
fn interface_test_parse_interface_itip20() {
    let ty = path(&["ITIP20"]);
    let parsed = parse_interface(&ty).unwrap();

    assert_eq!(parsed.functions.len(), 28);
    assert_eq!(parsed.events.len(), 11);
    assert_eq!(parsed.errors.len(), 13);

    let name_fn = parsed.functions.iter().find(|f| f.name == "name");
    assert!(name_fn.is_some());
    assert!(name_fn.unwrap().is_view);
    assert!(name_fn.unwrap().params.is_empty());

    let balance_of_fn = parsed.functions.iter().find(|f| f.name == "balance_of");
    assert!(balance_of_fn.is_some());
    assert_eq!(balance_of_fn.unwrap().params.len(), 1);

    let transfer_event = parsed.events.iter().find(|e| e.name == "transfer");
    assert!(transfer_event.is_some());
    assert_eq!(transfer_event.unwrap().params.len(), 3);

    let insufficient_balance_error =
        parsed.errors.iter().find(|e| e.name == "insufficient_balance");
    assert!(insufficient_balance_error.is_some());
    assert_eq!(insufficient_balance_error.unwrap().params.len(), 3);
}

#[test]
fn interface_test_parse_unknown_interface() {
    let ty = path(&["UnknownInterface"]);
    let parsed = parse_interface(&ty).unwrap();

    assert!(parsed.functions.is_empty());
    assert!(parsed.events.is_empty());
    assert!(parsed.errors.is_empty());
}

#[test]
fn tests_test_parse_unknown_interface() {
    let ty = path(&["UnknownInterface"]);
    let parsed = parse_interface(&ty).unwrap();

    assert!(parsed.functions.is_empty());
    assert!(parsed.events.is_empty());
    assert!(parsed.errors.is_empty());
}

#[test]
fn interface_test_fn_kind() {
    let func = new_fn("name", vec![], vec![AbiType::String], true);
    assert_eq!(func.kind(), FunctionKind::Metadata);

    let func = new_fn(
        "balance_of",
        vec![("account", AbiType::Address)],
        vec![AbiType::Uint256],
        true,
    );
    assert_eq!(func.kind(), FunctionKind::View);

    let func = new_fn(
        "transfer",
        vec![("to", AbiType::Address), ("amount", AbiType::Uint256)],
        vec![AbiType::Bool],
        false,
    );
    assert_eq!(func.kind(), FunctionKind::Mutate);

    let func = new_fn(
        "mint",
        vec![("to", AbiType::Address), ("amount", AbiType::Uint256)],
        vec![],
        false,
    );
    assert_eq!(func.kind(), FunctionKind::MutateVoid);
}

#[test]
fn tests_test_fn_kind() {
    let func = new_fn("name", vec![], vec![AbiType::String], true);
    assert_eq!(func.kind(), FunctionKind::Metadata);

    let func = new_fn(
        "balance_of",
        vec![("account", AbiType::Address)],
        vec![AbiType::Uint256],
        true,
    );
    assert_eq!(func.kind(), FunctionKind::View);

    let func = new_fn(
        "transfer",
        vec![("to", AbiType::Address), ("amount", AbiType::Uint256)],
        vec![AbiType::Bool],
        false,
    );
    assert_eq!(func.kind(), FunctionKind::Mutate);

    let func = new_fn(
        "mint",
        vec![("to", AbiType::Address), ("amount", AbiType::Uint256)],
        vec![],
        false,
    );
    assert_eq!(func.kind(), FunctionKind::MutateVoid);
}

#[test]
fn path_without_segments_names_no_interface() {
    let ty = path(&[]);
    assert_eq!(try_extract_type_ident(&ty).unwrap_err(), CatalogueError::NotATypePath);
    assert_eq!(get_event_enum_path(&ty).unwrap_err(), CatalogueError::NotATypePath);
    assert!(parse_interface(&ty).is_err());
}

#[test]
fn catalogue_knows_its_nine_interfaces() {
    let expected = [
        ("ITIP20", 28, 11, 13),
        ("ITIP20Factory", 2, 1, 0),
        ("ITIP20RewardsRegistry", 1, 0, 2),
        ("ITIP4217Registry", 1, 0, 0),
        ("IFeeManager", 8, 2, 9),
        ("ITestToken", 9, 0, 0),
        ("IMetadata", 2, 0, 0),
        ("IMiniToken", 1, 2, 0),
        ("IErrorTest", 1, 0, 2),
    ];
    for (name, functions, events, errors) in expected {
        assert!(is_known_interface(name));
        let parsed = parse_interface(&path(&["crate", name])).unwrap();
        assert_eq!(parsed.functions.len(), functions, "{name}");
        assert_eq!(parsed.events.len(), events, "{name}");
        assert_eq!(parsed.errors.len(), errors, "{name}");
    }
    assert!(!is_known_interface("UnknownInterface"));
}

#[test]
fn call_paths_are_under_the_interface() {
    let parsed = parse_interface(&path(&["crate", "ITIP20"])).unwrap();
    let f = parsed.functions.iter().find(|f| f.name == "transfer_from").unwrap();
    assert_eq!(f.call_type_path.to_string(), "crate :: ITIP20 :: transferFromCall");
    let e = parsed.events.iter().find(|e| e.name == "burn_blocked").unwrap();
    assert_eq!(e.event_type_path.to_string(), "crate :: ITIP20 :: BurnBlocked");
    let x = parsed.errors.iter().find(|e| e.name == "not_paused").unwrap();
    assert_eq!(x.error_type_path.to_string(), "crate :: ITIP20 :: NotPaused");
}

#[test]
fn selectors_are_those_of_the_token_standard() {
    let parsed = parse_interface(&path(&["ITIP20"])).unwrap();
    let selector = |name: &str| {
        parsed.functions.iter().find(|f| f.name == name).unwrap().selector()
    };
    assert_eq!(selector("name"), [0x06, 0xfd, 0xde, 0x03]);
    assert_eq!(selector("symbol"), [0x95, 0xd8, 0x9b, 0x41]);
    assert_eq!(selector("decimals"), [0x31, 0x3c, 0xe5, 0x67]);
    assert_eq!(selector("total_supply"), [0x18, 0x16, 0x0d, 0xdd]);
    assert_eq!(selector("balance_of"), [0x70, 0xa0, 0x82, 0x31]);
    assert_eq!(selector("allowance"), [0xdd, 0x62, 0xed, 0x3e]);
    assert_eq!(selector("transfer"), [0xa9, 0x05, 0x9c, 0xbb]);
    assert_eq!(selector("transfer_from"), [0x23, 0xb8, 0x72, 0xdd]);
    assert_eq!(selector("approve"), [0x09, 0x5e, 0xa7, 0xb3]);
    assert_eq!(selector("mint"), [0x40, 0xc1, 0x0f, 0x19]);
    assert_eq!(selector("burn"), [0x42, 0x96, 0x6c, 0x68]);

    let f = parsed.functions.iter().find(|f| f.name == "transfer_from_with_memo").unwrap();
    assert_eq!(f.signature(), "transferFromWithMemo(address,address,uint256,bytes32)");
    let e = parsed.events.iter().find(|e| e.name == "transfer").unwrap();
    assert_eq!(e.signature(), "Transfer(address,address,uint256)");
    assert_eq!(
        const_hex::encode(e.signature_hash().to_be_bytes()),
        "ddf252ad1be2c89b69c2b068fc378daa952ba7f163c4a11628f55a4df523b3ef"
    );
    let x = parsed.errors.iter().find(|e| e.name == "paused").unwrap();
    assert_eq!(x.signature(), "Paused()");
    assert_eq!(x.selector()[..], alloy::primitives::keccak256("Paused()")[..4]);
}
