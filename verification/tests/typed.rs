use precompile_core::context::Context;
use precompile_core::error::PrecompileError;
use precompile_core::handlers::Mapping;
use precompile_core::primitives::{Address, U256};
use precompile_core::storage::Storage;
use precompile_core::typed::{StorageValue, TypedMapping, TypedNestedMapping, TypedSlot};

#[test]
fn typed_fields_share_a_word() {
    let mut storage = Storage::new();
    let at = Address::new([0x42; 20]);
    let slot = U256::zero();
    let a: TypedSlot<u8> = TypedSlot::packed(slot, 0).unwrap();
    let b: TypedSlot<u64> = TypedSlot::packed(slot, 1).unwrap();
    let c: TypedSlot<Address> = TypedSlot::packed(slot, 9).unwrap();
    let mut one = [0u8; 20];
    one[19] = 1;
    a.write(&mut storage, &at, &0x11);
    b.write(&mut storage, &at, &0x2233445566778899);
    c.write(&mut storage, &at, &Address::new(one));
    assert_eq!(a.read(&storage, &at), 0x11);
    assert_eq!(b.read(&storage, &at), 0x2233445566778899);
    assert_eq!(c.read(&storage, &at), Address::new(one));
    let mut word = [0u8; 32];
    word[31] = 0x11;
    word[23..31].copy_from_slice(&0x2233445566778899u64.to_be_bytes());
    word[22] = 1;
    assert_eq!(storage.sload(&at, &slot), U256::from_be_bytes(word));
    b.write(&mut storage, &at, &u64::MAX);
    assert_eq!(a.read(&storage, &at), 0x11);
    assert_eq!(b.read(&storage, &at), u64::MAX);
    assert_eq!(c.read(&storage, &at), Address::new(one));
}

#[test]
fn typed_field_must_lie_inside_the_word() {
    let slot = U256::zero();
    assert!(TypedSlot::<u64>::packed(slot, 24).is_some());
    assert!(TypedSlot::<u64>::packed(slot, 25).is_none());
    assert!(TypedSlot::<Address>::packed(slot, 12).is_some());
    assert!(TypedSlot::<Address>::packed(slot, 13).is_none());
    assert!(TypedSlot::<U256>::packed(slot, 0).is_some());
    assert!(TypedSlot::<U256>::packed(slot, 1).is_none());
    assert!(TypedSlot::<u8>::packed(slot, 31).is_some());
    assert!(TypedSlot::<u8>::packed(slot, 32).is_none());
    assert_eq!(
        (u8::size(), u64::size(), <Address as StorageValue>::size(), <U256 as StorageValue>::size()),
        (1, 8, 20, 32)
    );
}

#[test]
fn values_and_their_words() {
    assert_eq!(StorageValue::to_word(&7u8), U256::from_u64(7));
    assert_eq!(StorageValue::to_word(&7u64), U256::from_u64(7));
    let w = U256::from_be_bytes([0xAB; 32]);
    assert_eq!(<u8 as StorageValue>::from_word(&w), 0xAB);
    assert_eq!(<u64 as StorageValue>::from_word(&w), 0xABABABABABABABAB);
    assert_eq!(<Address as StorageValue>::from_word(&w), Address::new([0xAB; 20]));
    assert_eq!(<U256 as StorageValue>::from_word(&w), w);
}

#[test]
fn typed_mapping_resolves_like_the_plain_one() {
    let base = U256::from_u64(1);
    let balances: TypedMapping<Address, U256> = TypedMapping::new(base);
    let key = Address::new([0xA1; 20]);
    let mut ctx = Context::new(Storage::new());
    assert_eq!(
        balances.at(&key).write_tl(&mut ctx, &U256::from_u64(5)).unwrap_err(),
        PrecompileError::NoActiveContext
    );
    assert_eq!(balances.at(&key).read_tl(&ctx).unwrap_err(), PrecompileError::NoActiveContext);
    let token = Address::new([1; 20]);
    ctx.enter(token);
    balances.at(&key).write_tl(&mut ctx, &U256::from_u64(5)).unwrap();
    assert_eq!(balances.at(&key).read_tl(&ctx).unwrap(), U256::from_u64(5));
    assert_eq!(Mapping::new(base).at_address(&key).read_tl(&ctx).unwrap(), U256::from_u64(5));
    let by_number: TypedMapping<u64, u8> = TypedMapping::new(base);
    by_number.at(&3).write_tl(&mut ctx, &200).unwrap();
    assert_eq!(by_number.at(&3).read_tl(&ctx).unwrap(), 200);
    assert_eq!(
        Mapping::new(base).at(&U256::from_u64(3)).read_tl(&ctx).unwrap(),
        U256::from_u64(200)
    );
    assert_eq!(by_number.at(&4).read_tl(&ctx).unwrap(), 0);
}

#[test]
fn typed_nested_mapping_resolves_key_by_key() {
    let allowances: TypedNestedMapping<Address, Address, U256> =
        TypedNestedMapping::new(U256::from_u64(2));
    let owner = Address::new([1; 20]);
    let spender = Address::new([2; 20]);
    let mut storage = Storage::new();
    let token = Address::new([9; 20]);
    allowances.at(&owner).at(&spender).write(&mut storage, &token, &U256::from_u64(50));
    assert_eq!(allowances.at(&owner).at(&spender).read(&storage, &token), U256::from_u64(50));
    assert_eq!(allowances.at(&spender).at(&owner).read(&storage, &token), U256::zero());
}

#[test]
fn typed_field_is_not_written_in_a_static_call() {
    let mut ctx = Context::new(Storage::new());
    let at = Address::new([0x42; 20]);
    let field: TypedSlot<u64> = TypedSlot::packed(U256::from_u64(2), 4).unwrap();
    ctx.enter(at);
    field.write_tl(&mut ctx, &77).unwrap();
    {
        let mut view = ctx.static_view();
        assert_eq!(field.read_tl(&view).unwrap(), 77);
        assert_eq!(
            field.write_tl(&mut view, &78).unwrap_err(),
            PrecompileError::StateMutabilityViolation
        );
        assert_eq!(field.read_tl(&view).unwrap(), 77);
    }
    assert_eq!(field.read_tl(&ctx).unwrap(), 77);
}
