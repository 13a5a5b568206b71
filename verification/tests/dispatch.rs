use precompile_core::abi::{encode, AbiType, AbiValue};
use precompile_core::context::Context;
use precompile_core::dispatch::{
    compute_selectors, dispatch, encode_outcome, find_duplicate_selector, DispatchTable,
    DuplicateSelector, FnContract, RevertPayload,
};
use precompile_core::emit::{emit_event, record_parts, topic_for};
use precompile_core::error::{PrecompileError, Result};
use precompile_core::hash::{keccak256, selector};
use precompile_core::host::{call_precompile, CallInput};
use precompile_core::interface::{event, parse_interface, InterfaceFunction, TypePath};
use precompile_core::primitives::{Address, U256};
use precompile_core::storage::Storage;
use precompile_core::thread_local_example::ThreadLocalToken;

fn path(name: &str) -> TypePath {
    TypePath::new(vec![name.to_string()])
}

fn mini_token() -> DispatchTable {
    DispatchTable::new(parse_interface(&path("IMiniToken")).unwrap().functions).unwrap()
}

fn calldata(signature: &str, args: &Vec<AbiValue>) -> Vec<u8> {
    let mut input = selector(signature).to_vec();
    input.extend_from_slice(&encode(args));
    input
}

fn call(input: Vec<u8>, is_static: bool) -> CallInput {
    CallInput {
        caller: Address::new([0xCA; 20]),
        callee_address: Address::new([0x01; 20]),
        value: U256::zero(),
        input,
        gas: 1_000_000,
        is_static,
    }
}

fn error_selector(text: &str) -> Vec<u8> {
    alloy::primitives::keccak256(text)[..4].to_vec()
}

fn balance_of(ctx: &mut Context, account: Address) -> U256 {
    ctx.enter(Address::new([0x01; 20]));
    let balance = ThreadLocalToken::_new().balance_of(ctx, account).unwrap();
    ctx.exit();
    balance
}

#[test]
fn calldata_reaches_the_handler_of_its_selector() {
    let table = mini_token();
    let token = ThreadLocalToken::_new();
    let mut ctx = Context::new(Storage::new());
    let to = Address::new([0xA1; 20]);
    let args = vec![AbiValue::Address(to), AbiValue::Uint256(U256::from_u64(1000))];
    let out = call_precompile(
        &token,
        &table,
        &mut ctx,
        &call(calldata("mint(address,uint256)", &args), false),
    );
    assert!(!out.reverted);
    assert_eq!(out.output, Vec::<u8>::new());
    assert_eq!(out.gas_used, 0);
    assert_eq!(ctx.call_depth(), 0);
    assert_eq!(balance_of(&mut ctx, to), U256::from_u64(1000));
}

#[test]
fn static_call_of_mint_reverts_and_writes_nothing() {
    let table = mini_token();
    let token = ThreadLocalToken::_new();
    let mut ctx = Context::new(Storage::new());
    let to = Address::new([0xA1; 20]);
    let args = vec![AbiValue::Address(to), AbiValue::Uint256(U256::from_u64(1000))];
    let input = calldata("mint(address,uint256)", &args);
    call_precompile(&token, &table, &mut ctx, &call(input.clone(), false));
    let out = call_precompile(&token, &table, &mut ctx, &call(input, true));
    assert!(out.reverted);
    assert_eq!(out.output, error_selector("StateMutabilityViolation()"));
    assert_eq!(out.output, PrecompileError::StateMutabilityViolation.revert_payload());
    assert_eq!(balance_of(&mut ctx, to), U256::from_u64(1000));
    assert_eq!(ctx.call_depth(), 0);
}

#[test]
fn unknown_selector_reverts_and_leaks_no_frame() {
    let table = mini_token();
    let token = ThreadLocalToken::_new();
    let mut ctx = Context::new(Storage::new());
    let out = call_precompile(
        &token,
        &table,
        &mut ctx,
        &call(vec![0xde, 0xad, 0xbe, 0xef], false),
    );
    assert!(out.reverted);
    assert_eq!(out.output, error_selector("UnknownSelector()"));
    assert_eq!(ctx.call_depth(), 0);
    assert_eq!(table.route(&[0xde, 0xad, 0xbe, 0xef], false), Err(PrecompileError::UnknownSelector));
}

#[test]
fn calldata_shorter_than_a_selector_is_invalid() {
    let table = mini_token();
    let token = ThreadLocalToken::_new();
    let mut ctx = Context::new(Storage::new());
    for input in [vec![], vec![0x40], vec![0x40, 0xc1, 0x0f]] {
        let out = call_precompile(&token, &table, &mut ctx, &call(input.clone(), false));
        assert!(out.reverted);
        assert_eq!(out.output, error_selector("InvalidSelector()"));
        assert_eq!(table.route(&input, true), Err(PrecompileError::InvalidSelector));
    }
    assert_eq!(ctx.call_depth(), 0);
}

#[test]
fn arguments_that_do_not_decode_revert_with_the_name() {
    let table = mini_token();
    let token = ThreadLocalToken::_new();
    let mut ctx = Context::new(Storage::new());
    let mut input = selector("mint(address,uint256)").to_vec();
    input.extend_from_slice(&[0xff; 40]);
    let out = dispatch(&token, &table, &mut ctx, &input, false);
    assert_eq!(
        out,
        Err(RevertPayload { data: PrecompileError::AbiDecodeError("mint").revert_payload() })
    );
    // An address with bytes above its range does not decode either.
    let mut input = selector("mint(address,uint256)").to_vec();
    input.extend_from_slice(&[0xff; 64]);
    let out = dispatch(&token, &table, &mut ctx, &input, false);
    assert_eq!(
        out,
        Err(RevertPayload { data: PrecompileError::AbiDecodeError("mint").revert_payload() })
    );
}

#[test]
fn handler_without_a_frame_reverts() {
    let table = mini_token();
    let token = ThreadLocalToken::_new();
    let mut ctx = Context::new(Storage::new());
    let args = vec![
        AbiValue::Address(Address::new([0xA1; 20])),
        AbiValue::Uint256(U256::from_u64(1)),
    ];
    let out = dispatch(&token, &table, &mut ctx, &calldata("mint(address,uint256)", &args), false);
    assert_eq!(out.unwrap_err().data, error_selector("NoActiveContext()"));
}

/// The handlers of a contract with functions of every kind.
fn test_token_handlers(
    ctx: &mut Context,
    function: &InterfaceFunction,
    args: &Vec<AbiValue>,
) -> Result<Vec<AbiValue>> {
    let slot = U256::from_u64(7);
    match function.name {
        "name" => Ok(vec![AbiValue::String(b"Test Token".to_vec())]),
        "decimals" => Ok(vec![AbiValue::Uint8(18)]),
        "balance_of" => Ok(vec![AbiValue::Uint256(ctx.sload(&slot)?)]),
        "transfer" => {
            ctx.sstore(&slot, &U256::from_u64(5))?;
            Ok(vec![AbiValue::Bool(true)])
        }
        "approve" => Ok(vec![AbiValue::Uint8(1)]),
        "mint" => match &args[1] {
            AbiValue::Uint256(amount) => {
                ctx.sstore(&slot, amount)?;
                Ok(vec![])
            }
            _ => Err(PrecompileError::AbiDecodeError(function.name)),
        },
        "burn" => Err(PrecompileError::InsufficientBalance {
            account: Address::new([0xA1; 20]),
            balance: U256::from_u64(900),
            needed: U256::from_u64(10_000),
        }),
        _ => Err(PrecompileError::UnknownSelector),
    }
}

fn test_token() -> DispatchTable {
    DispatchTable::new(parse_interface(&path("ITestToken")).unwrap().functions).unwrap()
}

#[test]
fn returns_are_encoded_by_kind() {
    let table = test_token();
    let contract = FnContract::new(test_token_handlers);
    assert_eq!(table.len(), 9);
    assert_eq!(table.function(3).name, "balance_of");
    let mut ctx = Context::new(Storage::new());
    let alice = AbiValue::Address(Address::new([0xA1; 20]));
    let amount = AbiValue::Uint256(U256::from_u64(77));

    // Metadata: the encoded return, here a string.
    let out = call_precompile(&contract, &table, &mut ctx, &call(calldata("name()", &vec![]), true));
    assert!(!out.reverted);
    assert_eq!(out.output, encode(&vec![AbiValue::String(b"Test Token".to_vec())]));
    let out =
        call_precompile(&contract, &table, &mut ctx, &call(calldata("decimals()", &vec![]), true));
    assert_eq!(out.output, U256::from_u64(18).to_be_bytes().to_vec());

    // MutateVoid: nothing goes back.
    let input = calldata("mint(address,uint256)", &vec![alice.clone(), amount.clone()]);
    let out = call_precompile(&contract, &table, &mut ctx, &call(input, false));
    assert!(!out.reverted);
    assert!(out.output.is_empty());

    // View: the encoded return, also in a static call.
    let input = calldata("balanceOf(address)", &vec![alice.clone()]);
    let out = call_precompile(&contract, &table, &mut ctx, &call(input, true));
    assert!(!out.reverted);
    assert_eq!(out.output, U256::from_u64(77).to_be_bytes().to_vec());

    // Mutate: the encoded return.
    let input = calldata("transfer(address,uint256)", &vec![alice.clone(), amount.clone()]);
    let out = call_precompile(&contract, &table, &mut ctx, &call(input.clone(), false));
    assert!(!out.reverted);
    assert_eq!(out.output, U256::one().to_be_bytes().to_vec());
    let out = call_precompile(&contract, &table, &mut ctx, &call(input, true));
    assert!(out.reverted);
    assert_eq!(out.output, error_selector("StateMutabilityViolation()"));

    // A return of another type than declared is a failure without a class.
    let input = calldata("approve(address,uint256)", &vec![alice.clone(), amount]);
    let out = call_precompile(&contract, &table, &mut ctx, &call(input, false));
    assert!(out.reverted);
    assert_eq!(out.output, vec![0x4e, 0x48, 0x7b, 0x71]);

    // A failure of the handler reverts with its error.
    let input = calldata("burn(uint256)", &vec![AbiValue::Uint256(U256::from_u64(10_000))]);
    let out = call_precompile(&contract, &table, &mut ctx, &call(input, false));
    assert!(out.reverted);
    assert_eq!(
        out.output[..4],
        error_selector("InsufficientBalance(address,uint256,uint256)")[..]
    );
    assert_eq!(out.output.len(), 4 + 96);
    assert_eq!(ctx.call_depth(), 0);
}

#[test]
fn outcome_of_a_handler_is_encoded() {
    let functions = parse_interface(&path("ITestToken")).unwrap().functions;
    let mint = functions.iter().find(|f| f.name == "mint").unwrap();
    let balance_of = functions.iter().find(|f| f.name == "balance_of").unwrap();
    assert_eq!(encode_outcome(mint, Ok(vec![AbiValue::Bool(true)])), Ok(vec![]));
    assert_eq!(
        encode_outcome(balance_of, Ok(vec![AbiValue::Uint256(U256::from_u64(3))])),
        Ok(U256::from_u64(3).to_be_bytes().to_vec())
    );
    assert_eq!(
        encode_outcome(balance_of, Ok(vec![])),
        Err(RevertPayload { data: vec![0x4e, 0x48, 0x7b, 0x71] })
    );
    assert_eq!(
        encode_outcome(balance_of, Err(PrecompileError::NoActiveContext)),
        Err(RevertPayload { data: error_selector("NoActiveContext()") })
    );
}

#[test]
fn equal_selectors_are_found() {
    let a = [1, 2, 3, 4];
    let b = [1, 2, 3, 5];
    let c = [9, 9, 9, 9];
    assert_eq!(find_duplicate_selector(&vec![a, b, c]), None);
    assert_eq!(find_duplicate_selector(&vec![]), None);
    assert_eq!(
        find_duplicate_selector(&vec![a, b, c, b, a]),
        Some(DuplicateSelector { first: 1, second: 3 })
    );
    let mut functions = parse_interface(&path("ITestToken")).unwrap().functions;
    let again = parse_interface(&path("IMiniToken")).unwrap().functions;
    functions.extend(again);
    assert_eq!(compute_selectors(&functions)[7], [0x40, 0xc1, 0x0f, 0x19]);
    assert_eq!(
        DispatchTable::new(functions).err(),
        Some(DuplicateSelector { first: 7, second: 9 })
    );
}

#[test]
fn events_become_records() {
    let parsed = parse_interface(&path("ITIP20Factory")).unwrap();
    let created = &parsed.events[0];
    let token = Address::new([0x20; 20]);
    let admin = Address::new([0xAD; 20]);
    let args = vec![
        AbiValue::Address(token),
        AbiValue::Uint256(U256::from_u64(3)),
        AbiValue::String(b"Dollar".to_vec()),
        AbiValue::String(b"USD".to_vec()),
        AbiValue::String(b"USD".to_vec()),
        AbiValue::Address(admin),
    ];
    let mut ctx = Context::new(Storage::new());
    assert_eq!(
        emit_event(&mut ctx, created, &args).unwrap_err(),
        PrecompileError::NoActiveContext
    );
    let emitter = Address::new([0x0F; 20]);
    ctx.enter(emitter);
    emit_event(&mut ctx, created, &args).unwrap();
    assert_eq!(
        emit_event(&mut ctx, created, &args[..5].to_vec()).unwrap_err(),
        PrecompileError::AbiEncodeError("token_created")
    );
    assert_eq!(ctx.logs.len(), 1);
    let record = &ctx.logs[0];
    assert_eq!(record.address, emitter);
    assert_eq!(
        record.topics,
        vec![
            keccak256(b"TokenCreated(address,uint256,string,string,string,address)"),
            token.to_word(),
            U256::from_u64(3),
        ]
    );
    assert_eq!(record.data, encode(&args[2..].to_vec()));
    // An indexed string is a topic by its hash.
    assert_eq!(topic_for(&AbiValue::String(b"abc".to_vec())), keccak256(b"abc"));
    assert_eq!(topic_for(&AbiValue::Uint8(1)), U256::one());
    let _ = AbiType::String;
}

#[test]
fn event_with_too_many_topics_is_refused() {
    let wide = event(&path("IWide"), "wide", "Wide")
        .indexed("a", AbiType::Uint8)
        .indexed("b", AbiType::Uint8)
        .indexed("c", AbiType::Uint8)
        .indexed("d", AbiType::Uint8);
    let args = vec![AbiValue::Uint8(1); 4];
    let mut ctx = Context::new(Storage::new());
    ctx.enter(Address::zero());
    assert_eq!(
        emit_event(&mut ctx, &wide, &args).unwrap_err(),
        PrecompileError::AbiEncodeError("wide")
    );
    assert!(ctx.logs.is_empty());
}

#[test]
fn record_is_made_of_hash_topics_and_data() {
    let parsed = parse_interface(&path("IMiniToken")).unwrap();
    let mint = parsed.events.iter().find(|e| e.name == "mint").unwrap();
    let to = Address::new([0xA1; 20]);
    let args = vec![AbiValue::Address(to), AbiValue::Uint256(U256::from_u64(9))];
    let hash = U256::from_be_bytes([0x77; 32]);
    let (topics, data) = record_parts(mint, hash, &args).unwrap();
    assert_eq!(topics, vec![hash, to.to_word()]);
    assert_eq!(data, U256::from_u64(9).to_be_bytes().to_vec());
    assert_eq!(
        record_parts(mint, hash, &vec![AbiValue::Bool(true)]).unwrap_err(),
        PrecompileError::AbiEncodeError("mint")
    );
    assert_eq!(mint.signature_hash(), keccak256(b"Mint(address,uint256)"));
}

/// Handlers whose view functions try to write and to log.
fn writing_view_handlers(
    ctx: &mut Context,
    function: &InterfaceFunction,
    _args: &Vec<AbiValue>,
) -> Result<Vec<AbiValue>> {
    let slot = U256::from_u64(7);
    match function.name {
        // Fails where the write is refused.
        "balance_of" => {
            ctx.sstore(&slot, &U256::from_u64(99))?;
            Ok(vec![AbiValue::Uint256(ctx.sload(&slot)?)])
        }
        // Goes on where the write and the record are refused.
        "decimals" => {
            let _ = ctx.sstore(&slot, &U256::from_u64(98));
            let _ = ctx.emit(vec![U256::one()], vec![1]);
            ctx.enter(Address::new([0x33; 20]));
            Ok(vec![AbiValue::Uint8(18)])
        }
        "mint" => {
            ctx.sstore(&slot, &U256::from_u64(5))?;
            ctx.emit(vec![U256::one()], vec![1])?;
            Ok(vec![])
        }
        _ => Err(PrecompileError::UnknownSelector),
    }
}

#[test]
fn static_call_of_a_view_that_writes_changes_nothing() {
    let table = test_token();
    let contract = FnContract::new(writing_view_handlers);
    let mut ctx = Context::new(Storage::new());
    let callee = Address::new([0x01; 20]);
    let slot = U256::from_u64(7);
    let alice = AbiValue::Address(Address::new([0xA1; 20]));
    let amount = AbiValue::Uint256(U256::from_u64(77));
    let input = calldata("mint(address,uint256)", &vec![alice.clone(), amount]);
    let out = call_precompile(&contract, &table, &mut ctx, &call(input, false));
    assert!(!out.reverted);
    assert_eq!(ctx.storage.sload(&callee, &slot), U256::from_u64(5));
    assert_eq!(ctx.logs.len(), 1);

    let input = calldata("balanceOf(address)", &vec![alice.clone()]);
    let out = call_precompile(&contract, &table, &mut ctx, &call(input.clone(), true));
    assert!(out.reverted);
    assert_eq!(out.output, error_selector("StateMutabilityViolation()"));
    assert_eq!(ctx.storage.sload(&callee, &slot), U256::from_u64(5));
    assert_eq!(ctx.logs.len(), 1);
    assert_eq!(ctx.call_depth(), 0);

    let out =
        call_precompile(&contract, &table, &mut ctx, &call(calldata("decimals()", &vec![]), true));
    assert!(!out.reverted);
    assert_eq!(out.output, U256::from_u64(18).to_be_bytes().to_vec());
    assert_eq!(ctx.storage.sload(&callee, &slot), U256::from_u64(5));
    assert_eq!(ctx.logs.len(), 1);
    assert_eq!(ctx.call_depth(), 0);

    // The same view, called to write, does write, and its frames are dropped.
    let out = call_precompile(&contract, &table, &mut ctx, &call(input, false));
    assert!(!out.reverted);
    assert_eq!(out.output, U256::from_u64(99).to_be_bytes().to_vec());
    assert_eq!(ctx.storage.sload(&callee, &slot), U256::from_u64(99));
    let out =
        call_precompile(&contract, &table, &mut ctx, &call(calldata("decimals()", &vec![]), false));
    assert!(!out.reverted);
    assert_eq!(ctx.storage.sload(&callee, &slot), U256::from_u64(98));
    assert_eq!(ctx.logs.len(), 2);
    assert_eq!(ctx.call_depth(), 0);
}

#[test]
fn static_dispatch_leaves_the_frames_and_the_store() {
    let table = test_token();
    let contract = FnContract::new(writing_view_handlers);
    let mut ctx = Context::new(Storage::new());
    let callee = Address::new([0x01; 20]);
    let slot = U256::from_u64(7);
    ctx.enter(callee);
    let out = dispatch(&contract, &table, &mut ctx, &calldata("decimals()", &vec![]), true);
    assert_eq!(out.unwrap(), U256::from_u64(18).to_be_bytes().to_vec());
    assert_eq!(ctx.call_depth(), 1);
    assert_eq!(ctx.storage.sload(&callee, &slot), U256::zero());
    assert!(ctx.logs.is_empty());
    let out = dispatch(&contract, &table, &mut ctx, &calldata("decimals()", &vec![]), false);
    assert_eq!(out.unwrap(), U256::from_u64(18).to_be_bytes().to_vec());
    assert_eq!(ctx.call_depth(), 1);
    assert_eq!(ctx.current_address().unwrap(), callee);
    assert_eq!(ctx.storage.sload(&callee, &slot), U256::from_u64(98));
    assert_eq!(ctx.logs.len(), 1);
}

#[test]
fn event_in_a_static_call_is_refused() {
    let parsed = parse_interface(&path("IMiniToken")).unwrap();
    let transfer = &parsed.events[0];
    let args = vec![
        AbiValue::Address(Address::new([0xA1; 20])),
        AbiValue::Address(Address::new([0xB0; 20])),
        AbiValue::Uint256(U256::from_u64(3)),
    ];
    let mut ctx = Context::new(Storage::new());
    ctx.enter(Address::new([0x01; 20]));
    emit_event(&mut ctx, transfer, &args).unwrap();
    {
        let mut view = ctx.static_view();
        assert_eq!(
            emit_event(&mut view, transfer, &args).unwrap_err(),
            PrecompileError::StateMutabilityViolation
        );
        assert!(view.logs.is_empty());
    }
    assert_eq!(ctx.logs.len(), 1);
}
